use gaffa::color::{Color, PROCESS_COLORS};
use gaffa::output::{
    cell_line, format_error_message, format_gaffa_message, get_process_color, handle_line,
    layout_rows, log_line, next_char_boundary, plain_log_line, prefixed_rows,
    strip_ansi_escapes, wrap_ansi_preserving, wrap_by_widths, LineAction, Sink,
};

#[test]
fn strips_csi_color_codes() {
    let input = "  \x1b[32m\x1b[1mVITE\x1b[22m v5.4.21\x1b[39m  ready";
    assert_eq!(strip_ansi_escapes(input), "  VITE v5.4.21  ready");
}

#[test]
fn strips_csi_with_params() {
    let input = "\x1b[38;2;255;0;0mred\x1b[0m";
    assert_eq!(strip_ansi_escapes(input), "red");
}

#[test]
fn strips_osc_terminated_by_bel() {
    let input = "\x1b]0;title\x07hello";
    assert_eq!(strip_ansi_escapes(input), "hello");
}

#[test]
fn preserves_plain_text() {
    let input = "GET /login/ HTTP/1.1 200 1845";
    assert_eq!(strip_ansi_escapes(input), input);
}

#[test]
fn preserves_unicode() {
    let input = "\x1b[32m➜\x1b[39m  Local";
    assert_eq!(strip_ansi_escapes(input), "➜  Local");
}

#[test]
fn wrap_short_line_is_single_chunk() {
    let chunks = wrap_ansi_preserving("short line", 80);
    assert_eq!(chunks, vec!["short line".to_string()]);
}

#[test]
fn wrap_splits_on_display_width() {
    let chunks = wrap_ansi_preserving("abcdefghij", 4);
    assert_eq!(
        chunks,
        vec![
            "abcd\x1b[0m".to_string(),
            "efgh\x1b[0m".to_string(),
            "ij".to_string(),
        ]
    );
}

#[test]
fn wrap_preserves_ansi_across_splits() {
    let input = "\x1b[32mHELLO WORLD\x1b[0m";
    let chunks = wrap_ansi_preserving(input, 5);
    assert_eq!(chunks.len(), 3);
    assert!(chunks[0].contains("HELLO"));
    assert!(chunks[0].ends_with("\x1b[0m"));
    assert!(chunks[1].contains(" WORL"));
    assert!(chunks[1].ends_with("\x1b[0m"));
    assert!(chunks[2].contains("D"));
}

#[test]
fn wrap_zero_width_returns_unmodified() {
    let chunks = wrap_ansi_preserving("anything", 0);
    assert_eq!(chunks, vec!["anything".to_string()]);
}

#[test]
fn strips_osc_terminated_by_backslash_or_end() {
    assert_eq!(strip_ansi_escapes("\x1b]0;title\x1b\\hello"), "hello");
    assert_eq!(strip_ansi_escapes("a\x1b]0;never closed"), "a");
}

#[test]
fn strips_two_character_escapes_and_keeps_a_last_one() {
    assert_eq!(strip_ansi_escapes("a\x1bcb"), "ab");
    assert_eq!(strip_ansi_escapes("ab\x1b"), "ab\x1b");
}

#[test]
fn strips_incomplete_control_sequences() {
    assert_eq!(strip_ansi_escapes("\x1b[12"), "");
    assert_eq!(strip_ansi_escapes("\x1b[1 é"), "é");
    assert_eq!(strip_ansi_escapes("\x1b[ 1x"), "1x");
}

#[test]
fn stripping_twice_changes_nothing() {
    let once = strip_ansi_escapes("\x1b\x1b[31mx\x1b]y\x07z\x1b");
    assert_eq!(strip_ansi_escapes(&once), once);
}

#[test]
fn escapes_before_other_than_ascii_take_one_character() {
    assert_eq!(strip_ansi_escapes("ok \x1b➜ done"), "ok  done");
    assert_eq!(
        wrap_ansi_preserving("ok \x1b➜ done", 80),
        vec!["ok \x1b➜ done".to_string()]
    );
    assert_eq!(
        wrap_ansi_preserving("ab\x1b➜cd", 2),
        vec!["ab\x1b➜\x1b[0m".to_string(), "cd".to_string()]
    );
    assert_eq!(log_line("T", false, "web", "a\x1béb"), "[T] [web] ab\n");
}

#[test]
fn wide_characters_take_two_columns() {
    let chunks = wrap_ansi_preserving("日本語", 4);
    assert_eq!(chunks, vec!["日本\x1b[0m".to_string(), "語".to_string()]);
}

#[test]
fn zero_width_characters_stay_on_the_row() {
    let chunks = wrap_ansi_preserving("ab\u{301}c", 2);
    assert_eq!(chunks, vec!["ab\u{301}\x1b[0m".to_string(), "c".to_string()]);
}

#[test]
fn a_character_that_is_too_wide_has_a_row_of_its_own() {
    let chunks = wrap_ansi_preserving("日a", 1);
    assert_eq!(chunks, vec!["日\x1b[0m".to_string(), "a".to_string()]);
}

#[test]
fn control_characters_take_no_column() {
    let chunks = wrap_ansi_preserving("a\tb", 2);
    assert_eq!(chunks, vec!["a\tb".to_string()]);
}

#[test]
fn an_empty_line_has_no_rows() {
    assert!(wrap_ansi_preserving("", 10).is_empty());
    assert_eq!(wrap_ansi_preserving("", 0), vec!["".to_string()]);
}

#[test]
fn wrapped_rows_make_up_the_line() {
    let input = "\x1b[32mHELLO WORLD\x1b[0m and more";
    let chunks = wrap_ansi_preserving(input, 5);
    let mut joined = String::new();
    for (i, chunk) in chunks.iter().enumerate() {
        if i + 1 < chunks.len() {
            joined.push_str(&chunk[..chunk.len() - 4]);
        } else {
            joined.push_str(chunk);
        }
    }
    assert_eq!(joined, input);
}

#[test]
fn char_boundaries_follow_the_first_byte() {
    let bytes = "aé日😀".as_bytes();
    assert_eq!(next_char_boundary(bytes, 0), 1);
    assert_eq!(next_char_boundary(bytes, 1), 3);
    assert_eq!(next_char_boundary(bytes, 2), 3);
    assert_eq!(next_char_boundary(bytes, 3), 6);
    assert_eq!(next_char_boundary(bytes, 6), 10);
    assert_eq!(next_char_boundary(&bytes[..8], 6), 8);
}

#[test]
fn messages_are_aligned() {
    let text = |line: String| strip_ansi_escapes(&line);
    assert_eq!(text(format_gaffa_message("hello", 8)), "gaffa    │ hello");
    assert_eq!(text(format_gaffa_message("hello", 0)), "gaffa │ hello");
    assert_eq!(text(format_error_message("oops", 6)), "gaffa  │ oops");
}

#[test]
fn messages_are_coloured() {
    colored::control::set_override(true);
    assert_eq!(
        format_gaffa_message("hello", 6),
        "\x1b[35mgaffa\x1b[0m  \x1b[2;35m│\x1b[0m \x1b[35mhello\x1b[0m"
    );
    assert_eq!(
        format_error_message("oops", 5),
        "\x1b[31mgaffa\x1b[0m \x1b[2;31m│\x1b[0m \x1b[31moops\x1b[0m"
    );
}

#[test]
fn colours_start_again_after_a_reset() {
    colored::control::set_override(true);
    assert_eq!(
        format_gaffa_message("a\x1b[0mb", 5),
        "\x1b[35mgaffa\x1b[0m \x1b[2;35m│\x1b[0m \x1b[35ma\x1b[0m\x1b[35mb\x1b[0m"
    );
}

#[test]
fn process_colours_come_in_turn() {
    assert_eq!(get_process_color(0), Color::Cyan);
    assert_eq!(get_process_color(1), Color::Yellow);
    assert_eq!(get_process_color(6), Color::BrightBlue);
    assert_eq!(get_process_color(7), Color::Cyan);
    assert_eq!(PROCESS_COLORS.len(), 7);
}

#[test]
fn cells_are_padded_by_what_they_show() {
    assert_eq!(cell_line("<web>", 3, 6, "|", "text"), "<web>    | text");
    assert_eq!(cell_line("worker", 6, 3, "|", "text"), "worker | text");
}

#[test]
fn rows_are_wrapped_on_a_wide_terminal() {
    let rows = layout_rows("web", 3, 5, "│", "abcdefghijklmnop", Some(19));
    assert_eq!(
        rows,
        vec![
            "web   │ abcdefghijk\x1b[0m".to_string(),
            "      │ lmnop".to_string(),
        ]
    );
    let narrow = layout_rows("web", 3, 5, "│", "abcdefghijklmnop", Some(18));
    assert_eq!(narrow, vec!["web   │ abcdefghijklmnop".to_string()]);
    let unknown = layout_rows("web", 3, 5, "│", "x", None);
    assert_eq!(unknown, vec!["web   │ x".to_string()]);
}

#[test]
fn rows_of_a_process_are_coloured() {
    colored::control::set_override(true);
    let rows = prefixed_rows("web", 3, Color::Cyan, Color::Red, "hi", None);
    assert_eq!(
        rows,
        vec!["\x1b[36mweb\x1b[0m \x1b[2;31m│\x1b[0m hi".to_string()]
    );
}

#[test]
fn log_lines_are_plain() {
    assert_eq!(
        log_line("T", false, "web", "\x1b[32mok\x1b[0m"),
        "[T] [web] ok\n"
    );
    assert_eq!(log_line("T", true, "web", "bad"), "[T] [STDERR] [web] bad\n");
    assert_eq!(
        plain_log_line("T", false, "web", "\x1b[32mok"),
        "[T] [web] \x1b[32mok\n"
    );
}

#[test]
fn lines_go_where_they_belong() {
    let sink = Sink::Terminal { width: None, log_file: true };
    assert!(matches!(
        handle_line("web", "  \t", false, sink, 3, Color::Cyan, "T"),
        LineAction::Skip
    ));
    match handle_line("web", "hello  ", false, sink, 3, Color::Cyan, "T") {
        LineAction::Print { rows, log_line } => {
            assert_eq!(rows.len(), 1);
            assert_eq!(strip_ansi_escapes(&rows[0]), "web │ hello");
            assert_eq!(log_line, Some("[T] [web] hello\n".to_string()));
        }
        _ => panic!("a line is printed"),
    }
    match handle_line("web", "hello  ", true, Sink::Screen, 3, Color::Cyan, "T") {
        LineAction::AddLog(text) => assert_eq!(text, "hello"),
        _ => panic!("a line goes to the screen"),
    }
    let quiet = Sink::Terminal { width: None, log_file: false };
    match handle_line("web", "hello", false, quiet, 3, Color::Cyan, "T") {
        LineAction::Print { rows: _, log_line } => assert!(log_line.is_none()),
        _ => panic!("a line is printed"),
    }
}

#[test]
fn rows_are_cut_by_the_widths_given() {
    assert_eq!(
        wrap_by_widths("abc", &vec![3, 1, 2], 3),
        vec!["a\x1b[0m".to_string(), "bc".to_string()]
    );
    assert_eq!(
        wrap_by_widths("a\x1b[1mb", &vec![1, 9, 9, 9, 9, 1], 2),
        vec!["a\x1b[1mb".to_string()]
    );
}

#[test]
fn text_before_escapes_is_kept() {
    assert_eq!(strip_ansi_escapes("plain é \x1b[1mbold"), "plain é bold");
}

#[test]
fn narrow_messages_are_equal() {
    colored::control::set_override(true);
    for n in 0..5 {
        assert_eq!(format_gaffa_message("hello", n), format_gaffa_message("hello", 5));
        assert_eq!(format_error_message("hello", n), format_error_message("hello", 5));
    }
}

#[test]
fn errors_differ_from_messages_in_their_colour_alone() {
    colored::control::set_override(true);
    let error = format_error_message("oops", 7);
    let message = format_gaffa_message("oops", 7);
    assert!(error.starts_with("\x1b[31mgaffa\x1b[0m"));
    assert!(error.ends_with("\x1b[31moops\x1b[0m"));
    assert!(message.starts_with("\x1b[35mgaffa\x1b[0m"));
    assert!(message.ends_with("\x1b[35moops\x1b[0m"));
    assert_eq!(strip_ansi_escapes(&error), strip_ansi_escapes(&message));
}
