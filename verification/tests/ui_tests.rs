use std::collections::VecDeque;

use crossterm::event::{Event, KeyCode, KeyEvent, KeyModifiers, MouseEvent, MouseEventKind};
use gaffa::color::Color;
use gaffa::constants::{MAX_LOG_LINES, MAX_UI_LOGS};
use gaffa::name_map::NameMap;
use gaffa::screen::{
    command_error_message, live_status, loading_message, quit_message, quit_step, render_help_bar,
    run_terminal_ui, start_message, FrameStep, Pane, QuitPhase, ScreenEnd, StyledSpan,
};
use gaffa::text::split_lines;
use gaffa::types::{ProcessError, ProcessInfo, ProcessStatus};
use gaffa::ui::{
    keep_log, AppState, Key, LogEntry, UICommand, UIState, UiColor, PAGE_LINES, WHEEL_LINES,
};

fn create_test_ui_state() -> UIState {
    UIState::new()
}

fn entry(process: &str, content: String) -> LogEntry {
    LogEntry {
        timestamp: 0,
        process: process.to_string(),
        content,
        is_error: false,
    }
}

fn state_with_logs(count: usize) -> UIState {
    let mut ui_state = create_test_ui_state();
    for i in 0..count {
        ui_state.logs.push_back(entry("test", format!("Log {i}")));
    }
    ui_state
}

fn press(state: &mut UIState, key: Key) -> Option<UICommand> {
    assert!(state.is_ready(key, false, &None));
    state.handle_key(key, false, None).command
}

fn key_of(code: KeyCode) -> Key {
    match code {
        KeyCode::Char(c) => Key::Char(c),
        KeyCode::Backspace => Key::Backspace,
        KeyCode::Delete => Key::Delete,
        KeyCode::Enter => Key::Enter,
        KeyCode::Left => Key::Left,
        KeyCode::Right => Key::Right,
        KeyCode::Home => Key::Home,
        KeyCode::End => Key::End,
        KeyCode::Up => Key::Up,
        KeyCode::Down => Key::Down,
        KeyCode::PageUp => Key::PageUp,
        KeyCode::PageDown => Key::PageDown,
        _ => Key::Other,
    }
}

fn type_text(state: &mut UIState, text: &str) {
    for c in text.chars() {
        press(state, Key::Char(c));
    }
}

fn spans(line: &[StyledSpan]) -> Vec<(String, Option<UiColor>)> {
    line.iter().map(|s| (s.text.clone(), s.color)).collect()
}

#[test]
fn test_help_bar_content() {
    let (expected_help, color) = render_help_bar();
    assert_eq!(
        expected_help,
        " q: quit | t: toggle status | start <name> | s <name>/all: stop | r <name>: restart | PgUp/PgDn/Mouse: scroll "
    );
    assert!(expected_help.contains("q: quit"));
    assert!(expected_help.contains("t: toggle status"));
    assert!(expected_help.contains("start <name>"));
    assert!(expected_help.contains("s <name>/all: stop"));
    assert!(expected_help.contains("r <name>: restart"));
    assert!(expected_help.contains("PgUp/PgDn/Mouse: scroll"));
    assert_eq!(color, UiColor::DarkGray);
}

#[test]
fn test_help_bar_commands_completeness() {
    let help_text = render_help_bar().0;
    let commands = vec![
        ("q", "quit"),
        ("t", "toggle status"),
        ("start", "<name>"),
        ("s", "<name>/all: stop"),
        ("r", "<name>: restart"),
        ("PgUp/PgDn", "scroll"),
        ("Mouse", "scroll"),
    ];
    for (key, desc) in commands {
        assert!(help_text.contains(key), "Help bar missing key: {key}");
        assert!(help_text.contains(desc), "Help bar missing description: {desc}");
    }
}

#[test]
fn test_mouse_scroll_up() {
    let mut ui_state = state_with_logs(20);
    assert_eq!(ui_state.log_scroll_offset, 0);
    ui_state.log_scroll_offset = ui_state.log_scroll_offset.saturating_add(3);
    assert_eq!(ui_state.log_scroll_offset, 3);
    ui_state.log_scroll_offset = 100;
    ui_state.handle_wheel(true);
    assert_eq!(ui_state.log_scroll_offset, 15);
}

#[test]
fn test_mouse_scroll_down() {
    let mut ui_state = create_test_ui_state();
    ui_state.log_scroll_offset = 10;
    ui_state.log_scroll_offset = ui_state.log_scroll_offset.saturating_sub(3);
    assert_eq!(ui_state.log_scroll_offset, 7);
    ui_state.handle_wheel(false);
    assert_eq!(ui_state.log_scroll_offset, 0);
}

#[test]
fn test_keyboard_navigation() {
    let mut ui_state = state_with_logs(50);
    press(&mut ui_state, Key::PageUp);
    assert_eq!(ui_state.log_scroll_offset, 10);
    press(&mut ui_state, Key::PageDown);
    assert_eq!(ui_state.log_scroll_offset, 0);
    ui_state.handle_key(Key::Home, true, None);
    assert_eq!(ui_state.log_scroll_offset, 45);
    ui_state.handle_key(Key::End, true, None);
    assert_eq!(ui_state.log_scroll_offset, 0);
}

#[test]
fn test_status_toggle() {
    let mut ui_state = create_test_ui_state();
    assert!(!ui_state.show_status);
    press(&mut ui_state, Key::Char('t'));
    assert!(ui_state.show_status);
    press(&mut ui_state, Key::Char('t'));
    assert!(!ui_state.show_status);
}

#[test]
fn test_command_history() {
    let mut ui_state = create_test_ui_state();
    ui_state.command_history.push("start web".to_string());
    ui_state.command_history.push("stop worker".to_string());
    ui_state.command_history.push("restart scheduler".to_string());
    press(&mut ui_state, Key::Up);
    assert_eq!(ui_state.history_index, Some(2));
    assert_eq!(ui_state.input, "restart scheduler");
    press(&mut ui_state, Key::Up);
    assert_eq!(ui_state.history_index, Some(1));
    assert_eq!(ui_state.input, "stop worker");
    press(&mut ui_state, Key::Down);
    assert_eq!(ui_state.history_index, Some(2));
    assert_eq!(ui_state.input, "restart scheduler");
    press(&mut ui_state, Key::Down);
    assert_eq!(ui_state.history_index, None);
    assert_eq!(ui_state.input, "");
}

#[test]
fn test_input_handling() {
    let mut ui_state = create_test_ui_state();
    type_text(&mut ui_state, "start");
    assert_eq!(ui_state.input, "start");
    press(&mut ui_state, Key::Backspace);
    assert_eq!(ui_state.input, "star");
    for _ in 0..4 {
        press(&mut ui_state, Key::Backspace);
    }
    assert_eq!(ui_state.input, "");
    assert_eq!(ui_state.cursor_position, 0);
}

#[test]
fn test_process_color_assignment() {
    let mut ui_state = create_test_ui_state();
    let color = ui_state.get_process_color("gaffa", None);
    assert_eq!(color, UiColor::Magenta);
    let color1 = ui_state.get_process_color("web", None);
    let color2 = ui_state.get_process_color("worker", None);
    let color3 = ui_state.get_process_color("scheduler", None);
    let color4 = ui_state.get_process_color("database", None);
    assert_eq!(color1, UiColor::Cyan);
    assert_eq!(color2, UiColor::Yellow);
    assert_eq!(color3, UiColor::Blue);
    assert_eq!(color4, UiColor::Green);
    assert_ne!(color1, UiColor::Magenta);
    assert_ne!(color2, UiColor::Magenta);
    assert_ne!(color3, UiColor::Magenta);
    assert_ne!(color4, UiColor::Magenta);
    let color1_again = ui_state.get_process_color("web", None);
    assert_eq!(color1, color1_again);
}

#[test]
fn colours_of_the_manager_are_taken_over() {
    let mut ui_state = create_test_ui_state();
    assert_eq!(
        ui_state.get_process_color("web", Some(Color::BrightYellow)),
        UiColor::LightYellow
    );
    assert_eq!(ui_state.get_process_color("web", None), UiColor::LightYellow);
    assert_eq!(ui_state.get_process_color("db", Some(Color::Red)), UiColor::White);
    assert_eq!(ui_state.get_process_color("x", None), UiColor::Blue);
}

#[test]
fn test_log_entry_styling() {
    let mut ui_state = create_test_ui_state();
    ui_state.logs.push_back(entry("gaffa", "System message".to_string()));
    ui_state.logs.push_back(LogEntry {
        timestamp: 0,
        process: "web".to_string(),
        content: "Error occurred".to_string(),
        is_error: true,
    });
    ui_state.logs.push_back(entry("worker", "Normal output".to_string()));
    assert_eq!(ui_state.logs.len(), 3);
    let view = ui_state.render_logs(12);
    assert_eq!(view.title, "Output (3 lines)");
    assert_eq!(
        spans(&view.lines[0]),
        vec![("       gaffa | System message".to_string(), Some(UiColor::Magenta))]
    );
    assert_eq!(
        spans(&view.lines[1]),
        vec![
            ("         web".to_string(), Some(UiColor::Cyan)),
            (" | ".to_string(), None),
            ("Error occurred".to_string(), None),
        ]
    );
    assert_eq!(spans(&view.lines[2])[0].1, Some(UiColor::Yellow));
}

#[test]
fn test_scroll_offset_display() {
    let mut ui_state = state_with_logs(20);
    ui_state.log_scroll_offset = 5;
    let view = ui_state.render_logs(12);
    assert_eq!(view.title, "Output (showing 6-15 of 20 lines) [Scrolled]");
    assert_eq!(view.lines.len(), 10);
    assert_eq!(view.lines[0][2].text, "Log 5");

    let mut small_ui_state = state_with_logs(5);
    small_ui_state.log_scroll_offset = 2;
    let view = small_ui_state.render_logs(12);
    assert_eq!(view.title, "Output (showing 1-5 of 5 lines) [Scrolled]");

    let mut large_ui_state = state_with_logs(223);
    large_ui_state.log_scroll_offset = 223 - 32;
    let view = large_ui_state.render_logs(34);
    assert_eq!(view.title, "Output (showing 1-32 of 223 lines) [Scrolled]");
}

#[test]
fn test_auto_scroll_behavior() {
    let mut shared: VecDeque<LogEntry> = VecDeque::new();
    for i in 0..15 {
        shared.push_back(entry("test", format!("Log {i}")));
    }
    let mut ui_state = state_with_logs(10);
    ui_state.last_log_count = 10;
    ui_state.log_scroll_offset = 0;
    assert!(ui_state.sync_logs(&shared, None));
    assert_eq!(ui_state.log_scroll_offset, 0);

    let mut ui_state = state_with_logs(10);
    ui_state.last_log_count = 10;
    ui_state.log_scroll_offset = 3;
    ui_state.sync_logs(&shared, None);
    assert_eq!(ui_state.log_scroll_offset, 0);

    ui_state.log_scroll_offset = 10;
    for i in 15..20 {
        shared.push_back(entry("test", format!("Log {i}")));
    }
    ui_state.sync_logs(&shared, None);
    assert_eq!(ui_state.log_scroll_offset, 15);
    assert_eq!(ui_state.logs.len(), 20);
    assert!(!ui_state.sync_logs(&shared, None));
}

#[test]
fn test_ui_max_log_lines() {
    let mut logs: VecDeque<LogEntry> = VecDeque::new();
    for i in 0..MAX_LOG_LINES + 100 {
        keep_log(&mut logs, entry("test", format!("Log {}", i)));
    }
    assert_eq!(logs.len(), MAX_LOG_LINES);
    let first_log = logs.front().unwrap();
    assert!(first_log.content.contains("Log 100"));
}

#[test]
fn test_log_buffer_cap_1000_in_log_handler() {
    let mut logs: VecDeque<LogEntry> = VecDeque::new();
    for i in 0..2000 {
        keep_log(&mut logs, entry("test", format!("line {i}")));
    }
    assert_eq!(logs.len(), 1000);
    assert_eq!(logs.front().unwrap().content, "line 1000");
    assert_eq!(logs.back().unwrap().content, "line 1999");
}

#[test]
fn test_log_buffer_cap_10000_in_ui_state() {
    let mut ui_state = create_test_ui_state();
    ui_state.logs.push_back(entry("test", "line 0".to_string()));
    ui_state.last_log_count = 1;
    let mut shared: VecDeque<LogEntry> = VecDeque::new();
    for i in 0..15_000 {
        shared.push_back(entry("test", format!("line {i}")));
    }
    ui_state.sync_logs(&shared, None);
    assert_eq!(ui_state.logs.len(), MAX_UI_LOGS);
    assert_eq!(ui_state.logs.len(), 10_000);
    assert_eq!(ui_state.logs.front().unwrap().content, "line 5000");
    assert_eq!(ui_state.logs.back().unwrap().content, "line 14999");
}

#[test]
fn test_log_buffer_size_limit() {
    let mut ui_state = state_with_logs(5);
    ui_state.last_log_count = 5;
    let mut shared: VecDeque<LogEntry> = VecDeque::new();
    for i in 0..15000 {
        shared.push_back(entry("test", format!("Log entry {}", i)));
    }
    ui_state.sync_logs(&shared, None);
    assert_eq!(ui_state.logs.len(), 10000);
    assert!(ui_state.logs.back().unwrap().content.contains("14999"));
    assert!(ui_state.logs.front().unwrap().content.contains("5000"));
}

#[test]
fn test_incremental_log_updates() {
    let mut ui_state = create_test_ui_state();
    let mut shared: VecDeque<LogEntry> = VecDeque::new();
    for i in 0..100 {
        shared.push_back(entry("test", format!("Initial log {}", i)));
    }
    ui_state.sync_logs(&shared, None);
    assert_eq!(ui_state.logs.len(), 100);
    assert!(ui_state.logs[0].content.contains("Initial log 0"));
    for i in 100..110 {
        shared.push_back(entry("test", format!("New log {}", i)));
    }
    ui_state.sync_logs(&shared, None);
    assert_eq!(ui_state.logs.len(), 110);
    assert!(ui_state.logs[100].content.contains("New log 100"));
    assert!(ui_state.logs[109].content.contains("New log 109"));
}

#[test]
fn test_exponential_backoff() {
    let millis: u128 = 1_000_000;
    let mut check_interval: u128 = gaffa::console::MONITOR_START;
    assert_eq!(check_interval / millis, 100);
    for expected in [200u128, 400, 800, 1600, 2000, 2000] {
        check_interval = gaffa::console::next_interval(check_interval);
        assert_eq!(check_interval / millis, expected);
    }
}

#[test]
fn test_adaptive_poll_timeout() {
    let poll_timeout = |should_redraw: bool, needs_redraw: bool| {
        if should_redraw || needs_redraw {
            std::time::Duration::from_millis(1)
        } else {
            std::time::Duration::from_millis(16)
        }
    };
    assert_eq!(poll_timeout(false, false).as_millis(), 16);
    assert_eq!(poll_timeout(true, false).as_millis(), 1);
    assert_eq!(poll_timeout(false, true).as_millis(), 1);
}

#[test]
fn test_efficient_stopped_detection() {
    let mut logs: VecDeque<LogEntry> = VecDeque::new();
    for i in 0..1000 {
        logs.push_back(entry("test", format!("Regular log {}", i)));
    }
    logs.push_back(entry("gaffa", "✓ Stopped process 'web'".to_string()));
    for i in 1001..1010 {
        logs.push_back(entry("test", format!("Regular log {}", i)));
    }
    let stopped_count: usize = logs
        .iter()
        .rev()
        .take(20)
        .filter(|log| {
            log.content.contains("✓ Stopped process")
                || log.content.contains("All processes stopped")
        })
        .count();
    assert_eq!(stopped_count, 1);
    let mut check_count: usize = 0;
    for log in logs.iter().rev().take(20) {
        check_count += 1;
        if log.content.contains("✓ Stopped process") {
            break;
        }
    }
    assert!(check_count <= 20);
}

#[test]
fn test_appstate_buffers_logs_before_ui_starts() {
    let mut state = AppState::new();
    let sent = state.add_log(
        "test".to_string(),
        "this log will be buffered".to_string(),
        false,
        1,
    );
    assert!(sent.is_none());
    assert_eq!(state.logs.len(), 1);
}

#[test]
fn test_appstate_logs_are_populated_via_channel_consumer() {
    let mut state = AppState::new();
    state.connect();
    let sent = state.add_log(
        "test".to_string(),
        "this log should be receivable".to_string(),
        false,
        1,
    );
    assert!(sent.is_some());
    assert_eq!(sent.unwrap().content, "this log should be receivable");
    assert_eq!(state.logs.len(), 0);
}

#[test]
fn system_logs_are_those_of_gaffa() {
    let mut state = AppState::default();
    assert!(state.set_process_status(vec!["x".to_string()]).is_none());
    state.add_system_log("hello".to_string(), 3);
    assert_eq!(state.logs[0].process, "gaffa");
    assert_eq!(state.logs[0].timestamp, 3);
    state.connect();
    let sent = state.add_system_log("again".to_string(), 4).unwrap();
    assert_eq!(sent.content, "again");
    assert_eq!(
        state.set_process_status(vec!["x".to_string()]),
        Some(vec!["x".to_string()])
    );
}

#[test]
fn test_ctrl_v_paste_event() {
    let paste_event = Event::Key(KeyEvent::new(KeyCode::Char('v'), KeyModifiers::CONTROL));
    match paste_event {
        Event::Key(key) => {
            assert_eq!(key.code, KeyCode::Char('v'));
            assert!(key.modifiers.contains(KeyModifiers::CONTROL));
            let control = key.modifiers.contains(KeyModifiers::CONTROL);
            assert!(UIState::wants_clipboard(key_of(key.code), control));
            let mut state = create_test_ui_state();
            type_text(&mut state, "ab");
            press(&mut state, Key::Left);
            state.handle_key(key_of(key.code), control, Some("é1".to_string()));
            assert_eq!(state.input, "aé1b");
            assert_eq!(state.cursor_position, 4);
            let outcome = state.handle_key(key_of(key.code), control, None);
            assert!(!outcome.redraw);
        }
        _ => panic!("Expected key event"),
    }
}

#[test]
fn test_mouse_scroll_events() {
    let scroll_up = Event::Mouse(MouseEvent {
        kind: MouseEventKind::ScrollUp,
        column: 0,
        row: 0,
        modifiers: KeyModifiers::empty(),
    });
    let mut state = state_with_logs(50);
    match scroll_up {
        Event::Mouse(mouse) => {
            assert_eq!(mouse.kind, MouseEventKind::ScrollUp);
            state.handle_wheel(mouse.kind == MouseEventKind::ScrollUp);
            assert_eq!(state.log_scroll_offset, WHEEL_LINES);
        }
        _ => panic!("Expected mouse event"),
    }
    let scroll_down = Event::Mouse(MouseEvent {
        kind: MouseEventKind::ScrollDown,
        column: 0,
        row: 0,
        modifiers: KeyModifiers::empty(),
    });
    match scroll_down {
        Event::Mouse(mouse) => {
            assert_eq!(mouse.kind, MouseEventKind::ScrollDown);
            state.handle_wheel(mouse.kind == MouseEventKind::ScrollUp);
            assert_eq!(state.log_scroll_offset, 0);
        }
        _ => panic!("Expected mouse event"),
    }
}

#[test]
fn test_help_bar_command_keys() {
    for c in ['q', 't', 's', 'r'] {
        let event = Event::Key(KeyEvent::new(KeyCode::Char(c), KeyModifiers::empty()));
        match event {
            Event::Key(key) => {
                assert_eq!(key.code, KeyCode::Char(c));
                assert_eq!(key_of(key.code), Key::Char(c));
            }
            _ => panic!("Expected key event"),
        }
    }
}

#[test]
fn test_navigation_keys() {
    let codes = [KeyCode::PageUp, KeyCode::PageDown, KeyCode::Home, KeyCode::End];
    let keys = [Key::PageUp, Key::PageDown, Key::Home, Key::End];
    for (code, key) in codes.into_iter().zip(keys) {
        match Event::Key(KeyEvent::new(code, KeyModifiers::empty())) {
            Event::Key(event) => {
                assert_eq!(event.code, code);
                assert_eq!(key_of(event.code), key);
            }
            _ => panic!("Expected key event"),
        }
    }
    assert_eq!(PAGE_LINES, 10);
}

#[test]
fn test_command_input() {
    let chars = vec!['s', 't', 'a', 'r', 't', ' ', 'w', 'e', 'b'];
    let mut state = create_test_ui_state();
    for ch in chars {
        match Event::Key(KeyEvent::new(KeyCode::Char(ch), KeyModifiers::empty())) {
            Event::Key(key) => {
                press(&mut state, key_of(key.code));
            }
            _ => panic!("Expected key event"),
        }
    }
    assert_eq!(state.input, "start web");
    match Event::Key(KeyEvent::new(KeyCode::Backspace, KeyModifiers::empty())) {
        Event::Key(key) => {
            assert_eq!(key.code, KeyCode::Backspace);
            press(&mut state, key_of(key.code));
        }
        _ => panic!("Expected key event"),
    }
    assert_eq!(state.input, "start we");
    match Event::Key(KeyEvent::new(KeyCode::Enter, KeyModifiers::empty())) {
        Event::Key(key) => {
            assert_eq!(key.code, KeyCode::Enter);
            let command = press(&mut state, key_of(key.code));
            assert!(matches!(command, Some(UICommand::ExecuteCommand(c)) if c == "start we"));
        }
        _ => panic!("Expected key event"),
    }
}

#[test]
fn test_history_navigation() {
    let mut state = create_test_ui_state();
    type_text(&mut state, "  status ");
    press(&mut state, Key::Enter);
    match Event::Key(KeyEvent::new(KeyCode::Up, KeyModifiers::empty())) {
        Event::Key(key) => {
            assert_eq!(key.code, KeyCode::Up);
            press(&mut state, key_of(key.code));
            assert_eq!(state.input, "status");
        }
        _ => panic!("Expected key event"),
    }
    match Event::Key(KeyEvent::new(KeyCode::Down, KeyModifiers::empty())) {
        Event::Key(key) => {
            assert_eq!(key.code, KeyCode::Down);
            press(&mut state, key_of(key.code));
            assert_eq!(state.input, "");
        }
        _ => panic!("Expected key event"),
    }
}

#[test]
fn test_ctrl_c_interrupt() {
    match Event::Key(KeyEvent::new(KeyCode::Char('c'), KeyModifiers::CONTROL)) {
        Event::Key(key) => {
            assert_eq!(key.code, KeyCode::Char('c'));
            assert!(key.modifiers.contains(KeyModifiers::CONTROL));
            let mut state = create_test_ui_state();
            let outcome = state.handle_key(key_of(key.code), true, None);
            assert!(matches!(outcome.command, Some(UICommand::Quit)));
            assert!(state.should_quit);
        }
        _ => panic!("Expected key event"),
    }
}

#[test]
fn test_clipboard_content_simulation() {
    let clipboard_content = "start web\nstop worker\nrestart scheduler";
    let lines = split_lines(clipboard_content);
    assert_eq!(lines.len(), 3);
    assert_eq!(lines[0], "start web");
    assert_eq!(lines[1], "stop worker");
    assert_eq!(lines[2], "restart scheduler");
}

#[test]
fn test_scroll_scenario() {
    let total_logs: usize = 100;
    let visible_height: usize = 20;
    let mut state = state_with_logs(total_logs);
    for _ in 0..5 {
        state.handle_wheel(true);
    }
    assert_eq!(state.log_scroll_offset, 40);
    press(&mut state, Key::PageUp);
    assert_eq!(state.log_scroll_offset, 50);
    state.log_scroll_offset = total_logs.saturating_sub(visible_height);
    assert_eq!(state.log_scroll_offset, 80);
    for _ in 0..3 {
        state.handle_wheel(false);
    }
    assert_eq!(state.log_scroll_offset, 56);
    state.handle_key(Key::End, true, None);
    assert_eq!(state.log_scroll_offset, 0);
}

#[test]
fn test_command_input_scenario() {
    let mut state = create_test_ui_state();
    state.command_history = vec![
        "start web".to_string(),
        "stop worker".to_string(),
        "restart scheduler".to_string(),
    ];
    type_text(&mut state, "start ");
    assert_eq!(state.input, "start ");
    for _ in 0..6 {
        press(&mut state, Key::Backspace);
    }
    assert_eq!(state.input, "");
    press(&mut state, Key::Up);
    assert_eq!(state.input, "restart scheduler");
    press(&mut state, Key::Up);
    assert_eq!(state.input, "stop worker");
    press(&mut state, Key::Enter);
    assert_eq!(state.input, "");
    assert_eq!(state.command_history.len(), 4);
}

#[test]
fn test_status_toggle_scenario() {
    let mut state = create_test_ui_state();
    assert!(!state.show_status);
    press(&mut state, Key::Char('t'));
    assert!(state.show_status);
    type_text(&mut state, "start");
    let old_status = state.show_status;
    press(&mut state, Key::Char('t'));
    assert_eq!(state.show_status, old_status);
    for _ in 0..6 {
        press(&mut state, Key::Backspace);
    }
    press(&mut state, Key::Char('t'));
    assert!(!state.show_status);
}

#[test]
fn keys_edit_the_line() {
    let mut state = create_test_ui_state();
    type_text(&mut state, "abc");
    press(&mut state, Key::Left);
    press(&mut state, Key::Left);
    press(&mut state, Key::Delete);
    assert_eq!(state.input, "ac");
    press(&mut state, Key::Home);
    press(&mut state, Key::Right);
    press(&mut state, Key::Char('x'));
    assert_eq!(state.input, "axc");
    press(&mut state, Key::End);
    assert_eq!(state.cursor_position, 3);
    assert!(!state.handle_key(Key::Right, false, None).redraw);
    assert!(!state.handle_key(Key::Delete, false, None).redraw);
    assert!(!state.handle_key(Key::Other, false, None).redraw);
    assert_eq!(state.render_input_with_help(2, 7), (6, 8));
}

#[test]
fn cursors_within_a_character_are_told_apart() {
    let mut state = create_test_ui_state();
    type_text(&mut state, "é");
    assert_eq!(state.cursor_position, 1);
    assert!(!state.is_ready(Key::Char('a'), false, &None));
    assert!(state.is_ready(Key::Left, false, &None));
    assert!(state.is_ready(Key::Backspace, false, &None));
    press(&mut state, Key::Backspace);
    assert_eq!(state.input, "");
}

#[test]
fn blank_lines_are_not_sent() {
    let mut state = create_test_ui_state();
    type_text(&mut state, "  ");
    assert!(press(&mut state, Key::Enter).is_none());
    assert_eq!(state.input, "  ");
    type_text(&mut state, "quit");
    assert!(matches!(press(&mut state, Key::Enter), Some(UICommand::Quit)));
    assert!(state.should_quit);
}

#[test]
fn colours_follow_the_manager() {
    let mut shared: VecDeque<LogEntry> = VecDeque::new();
    shared.push_back(entry("db", "x".to_string()));
    shared.push_back(entry("gaffa", "x".to_string()));
    shared.push_back(entry("web", "x".to_string()));
    let mut colors: NameMap<Color> = NameMap::new();
    colors.insert("web".to_string(), Color::BrightCyan);
    let mut state = create_test_ui_state();
    state.sync_logs(&shared, Some(&colors));
    assert_eq!(state.process_colors.get("db"), Some(&UiColor::Cyan));
    assert_eq!(state.process_colors.get("web"), Some(&UiColor::LightCyan));
    assert_eq!(state.process_colors.get("gaffa"), None);
}

#[test]
fn scrolled_views_stay_where_they_are() {
    let mut state = state_with_logs(50);
    state.last_log_count = 50;
    state.log_scroll_offset = 20;
    let before = state.render_logs(12).lines[0][2].text.clone();
    let mut shared: VecDeque<LogEntry> = state.logs.clone();
    shared.push_back(entry("test", "new".to_string()));
    state.sync_logs(&shared, None);
    assert_eq!(state.render_logs(12).lines[0][2].text, before);
    assert_eq!(before, "Log 20");
}

#[test]
fn status_lines_are_coloured() {
    let mut state = create_test_ui_state();
    state.get_process_color("web", Some(Color::Green));
    state.process_status = vec![
        "         web |      Running |              1 restart |           5s".to_string(),
        "db | Restarting | | N/A".to_string(),
        "no columns".to_string(),
    ];
    let lines = state.render_process_status();
    assert_eq!(
        spans(&lines[0]),
        vec![
            ("         web".to_string(), Some(UiColor::Green)),
            (" | ".to_string(), None),
            ("     Running".to_string(), Some(UiColor::Green)),
            (" | ".to_string(), None),
            ("             1 restart".to_string(), Some(UiColor::White)),
            (" | ".to_string(), None),
            ("          5s".to_string(), Some(UiColor::Magenta)),
        ]
    );
    assert_eq!(spans(&lines[1])[0].1, Some(UiColor::Cyan));
    assert_eq!(spans(&lines[1])[2].1, Some(UiColor::Blue));
    assert_eq!(spans(&lines[2]), vec![("no columns".to_string(), None)]);
}

#[test]
fn screens_have_their_panes() {
    let mut state = create_test_ui_state();
    assert_eq!(
        state.ui(),
        vec![Pane::Logs { min: 10 }, Pane::Input { height: 3 }, Pane::Help { height: 1 }]
    );
    state.show_status = true;
    state.process_status = vec!["a".to_string(), "b".to_string()];
    assert_eq!(state.ui()[1], Pane::Status { height: 6 });
    state.process_status = vec!["a".to_string(); 30];
    assert_eq!(state.ui()[1], Pane::Status { height: 17 });
}

#[test]
fn rounds_draw_when_needed() {
    let mut state = create_test_ui_state();
    let idle = FrameStep::Go { fresh: false, pause: 0 };
    assert_eq!(state.run_app(None, false), idle);
    let fresh = FrameStep::Go { fresh: true, pause: 0 };
    assert_eq!(state.run_app(Some(vec!["x".to_string()]), false), fresh);
    assert_eq!(state.process_status, vec!["x".to_string()]);
    assert_eq!(state.end_round(false, 500_000_000), (false, 10_000_000));
    assert_eq!(state.end_round(true, 0), (true, 10_000_000));
    state.show_status = true;
    assert_eq!(state.end_round(false, 100_000_001), (true, 10_000_000));
    assert_eq!(state.end_round(false, 100_000_000), (false, 10_000_000));
    state.should_quit = true;
    let slow = FrameStep::Go { fresh: false, pause: 50_000_000 };
    assert_eq!(state.run_app(None, false), slow);
    assert_eq!(state.run_app(None, true), FrameStep::Leave);
}

#[test]
fn screens_end_with_their_error() {
    let failed = Err(ProcessError::InputRead("no terminal".to_string()));
    assert!(matches!(
        run_terminal_ui(ScreenEnd::Screen(failed)),
        Err(ProcessError::InputRead(text)) if text == "no terminal"
    ));
    assert!(matches!(
        run_terminal_ui(ScreenEnd::Broken("panic".to_string())),
        Err(ProcessError::InputRead(text)) if text == "panic"
    ));
    assert!(run_terminal_ui(ScreenEnd::Screen(Ok(()))).is_ok());
    assert!(run_terminal_ui(ScreenEnd::Commands).is_ok());
    assert!(run_terminal_ui(ScreenEnd::Interrupted).is_ok());
}

#[test]
fn logs_that_nobody_reads_are_bounded() {
    let mut state = AppState::new();
    for i in 0..MAX_LOG_LINES + 5 {
        state.add_log("test".to_string(), format!("{i}"), false, 1);
    }
    assert_eq!(state.logs.len(), MAX_LOG_LINES);
    assert_eq!(state.logs[0].content, "5");
    state.add_system_log("last".to_string(), 2);
    assert_eq!(state.logs.len(), MAX_LOG_LINES);
    assert_eq!(state.logs[MAX_LOG_LINES - 1].content, "last");
}

#[test]
fn lines_from_before_the_screen_are_kept() {
    let mut state = AppState::new();
    state.add_log("test".to_string(), "first".to_string(), false, 1);
    state.connect();
    let sent = state.add_log("test".to_string(), "second".to_string(), false, 2);
    state.receive(sent.unwrap());
    let contents: Vec<&str> = state.logs.iter().map(|e| e.content.as_str()).collect();
    assert_eq!(contents, vec!["first", "second"]);
    for i in 0..MAX_LOG_LINES {
        state.receive(entry("test", format!("{i}")));
    }
    assert_eq!(state.logs.len(), MAX_LOG_LINES);
    assert_eq!(state.logs[0].content, "0");
}

#[test]
fn live_statuses_are_listed() {
    let mut processes: NameMap<ProcessInfo> = NameMap::new();
    processes.insert(
        "web".to_string(),
        ProcessInfo {
            command: "x".to_string(),
            status: ProcessStatus::Stopped,
            restart_count: 2,
            last_restart: Some(0),
            stopped_at: None,
            cumulative_runtime: 3_725_000_000_000,
            exit_code: None,
        },
    );
    assert_eq!(
        live_status(&processes, 0),
        vec!["         web |      Stopped |             2 restarts |         1h2m".to_string()]
    );
}

#[test]
fn quitting_waits_and_tells() {
    let second: u128 = 1_000_000_000;
    assert_eq!(quit_message(), "Stopping all processes...");
    let (phase, _) = quit_step(QuitPhase::Stopping, false, second);
    assert_eq!(phase, QuitPhase::Waiting { deadline: 11 * second });
    let (again, step) = quit_step(phase, false, 11 * second);
    assert_eq!(again, phase);
    assert_eq!(step.pause, 100_000_000);
    let (late, step) = quit_step(phase, false, 11 * second + 1);
    assert_eq!(late, QuitPhase::Gone);
    assert!(step.leave);
    assert_eq!(
        step.message,
        Some("Timeout waiting for processes to stop. Forcing exit...".to_string())
    );
    let (telling, step) = quit_step(phase, true, second);
    assert_eq!(telling, QuitPhase::Telling);
    assert_eq!(step.message, Some("All processes stopped. Exiting...".to_string()));
    let (closing, step) = quit_step(telling, true, second);
    assert_eq!(step.message, Some("Shutdown complete.".to_string()));
    assert_eq!(step.pause, 1_500_000_000);
    let (gone, step) = quit_step(closing, true, second);
    assert_eq!(gone, QuitPhase::Gone);
    assert!(step.leave);
}

#[test]
fn screen_messages() {
    let error = ProcessError::ProcessNotFound { name: "web".to_string() };
    assert_eq!(loading_message(3, "Procfile"), "Loading 3 processes from Procfile");
    assert_eq!(start_message("web", None), "Starting process 'web'");
    assert_eq!(
        start_message("web", Some(&error)),
        "Failed to start 'web': Process 'web' not found"
    );
    assert_eq!(command_error_message(&error), "Error: Process 'web' not found");
}
