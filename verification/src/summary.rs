//! The summary at the end of a session: a boxed table, and the plain one of the
//! console.

use vstd::prelude::*;
use crate::color::{bold, bold_code, dimmed, dimmed_code, foreground, paint_of, tinted, Color};
use crate::constants::{
    EXIT_CODE_CTRL_C_WINDOWS, EXIT_CODE_FORCED_TERMINATION, EXIT_CODE_KEYBOARD_INTERRUPT, MAX_SPAN,
    NANOS_PER_MILLI, TERMINAL_SEPARATOR_WIDTH,
};
use crate::output::bar;
use crate::process_manager::ProcessManager;
use crate::status::{format_secs, runtime_so_far, short_time, total_runtime};
use crate::text::{
    byte_len, byte_len_of, decimal, missing, pad_left, pad_right, padded_left, padded_right,
    push_decimal, push_repeated, push_signed, repeated, same_text, signed_decimal,
};
use crate::text_laws::law_signed_decimal_tells_numbers_apart;
use crate::types::{elapsed, secs, time_since, whole_secs, ProcessInfo, ProcessStatus};

verus! {

/// How long the last session of a process took, up to `now` where it goes on.
pub open spec fn last_session(info: ProcessInfo, now: u128) -> u128 {
    match (info.last_restart, info.stopped_at) {
        (Some(start), Some(end)) => time_since(start, end),
        (Some(start), None) => time_since(start, now),
        (None, _) => 0,
    }
}

/// A span of time in all its units, in milliseconds below a second. Less than
/// that is none.
pub open spec fn long_time(span: u128) -> Seq<char> {
    let n = secs(span);
    let millis = span as nat / 1_000_000;
    if millis == 0 {
        "N/A"@
    } else if n >= 3600 {
        decimal(n / 3600) + "h "@ + decimal((n % 3600) / 60) + "m "@ + decimal(n % 60) + "s"@
    } else if n >= 60 {
        decimal(n / 60) + "m "@ + decimal(n % 60) + "s"@
    } else if n >= 1 {
        decimal(n) + "s"@
    } else {
        decimal(millis) + "ms"@
    }
}

/// A span of time in all its units.
pub fn format_span(span: u128) -> (r: String)
    requires
        span <= MAX_SPAN,
    ensures
        r@ == long_time(span),
{
    let n: u64 = whole_secs(span);
    let mut r = String::new();
    if span / NANOS_PER_MILLI == 0 {
        return "N/A".to_owned();
    }
    if n >= 3600 {
        push_decimal(&mut r, n / 3600);
        r.append("h ");
        push_decimal(&mut r, (n % 3600) / 60);
        r.append("m ");
        push_decimal(&mut r, n % 60);
        r.append("s");
    } else if n >= 60 {
        push_decimal(&mut r, n / 60);
        r.append("m ");
        push_decimal(&mut r, n % 60);
        r.append("s");
    } else if n >= 1 {
        push_decimal(&mut r, n);
        r.append("s");
    } else {
        assert(span < 1_000_000_000);
        push_decimal(&mut r, (span / NANOS_PER_MILLI) as u64);
        r.append("ms");
    }
    assert(r@ =~= long_time(span));
    r
}

/// How a process that is stopped came to an end.
pub open spec fn end_text(exit_code: Option<i32>) -> Seq<char> {
    match exit_code {
        None => "stopped"@,
        Some(code) => if code == EXIT_CODE_FORCED_TERMINATION {
            "terminated"@
        } else if code == EXIT_CODE_KEYBOARD_INTERRUPT || code == EXIT_CODE_CTRL_C_WINDOWS {
            "interrupted"@
        } else {
            "exit "@ + signed_decimal(code as int)
        },
    }
}

/// How a process that is stopped came to an end.
fn format_end(exit_code: Option<i32>) -> (r: String)
    ensures
        r@ == end_text(exit_code),
{
    match exit_code {
        None => "stopped".to_owned(),
        Some(code) => if code == EXIT_CODE_FORCED_TERMINATION {
            "terminated".to_owned()
        } else if code == EXIT_CODE_KEYBOARD_INTERRUPT || code == EXIT_CODE_CTRL_C_WINDOWS {
            "interrupted".to_owned()
        } else {
            let mut r = "exit ".to_owned();
            push_signed(&mut r, code);
            r
        },
    }
}

/// What the summary says of a process: whether it runs, or how it came to an
/// end. `restarting` is the word for a process in between.
pub open spec fn outcome_text(info: ProcessInfo, restarting: Seq<char>) -> Seq<char> {
    match info.status {
        ProcessStatus::Running => "running"@,
        ProcessStatus::Stopped => end_text(info.exit_code),
        ProcessStatus::Restarting => restarting,
    }
}

/// What the summary says of a process.
pub fn format_outcome(info: &ProcessInfo, restarting: &str) -> (r: String)
    ensures
        r@ == outcome_text(*info, restarting@),
{
    match info.status {
        ProcessStatus::Running => "running".to_owned(),
        ProcessStatus::Stopped => format_end(info.exit_code),
        ProcessStatus::Restarting => restarting.to_owned(),
    }
}

/// A row of the summary.
#[derive(Debug)]
pub struct SummaryRow {
    pub name: String,
    pub color: Color,
    pub status: String,
    pub runtime: String,
}

/// Whether `row` is the row of a process.
pub open spec fn is_summary_row(
    row: SummaryRow,
    process: (String, ProcessInfo, Color),
    now: u128,
) -> bool {
    &&& row.name@ == process.0@
    &&& row.color == process.2
    &&& row.status@ == outcome_text(process.1, "unknown"@)
    &&& row.runtime@ == long_time(last_session(process.1, now))
}

/// Whether the times of a process can be told.
pub open spec fn tellable(info: ProcessInfo, now: u128) -> bool {
    &&& info.stopped_at is Some ==> info.stopped_at->0 <= MAX_SPAN
    &&& total_runtime(info, now) <= MAX_SPAN
}

/// The rows of the summary, one for each process.
pub fn summary_rows(snapshot: &Vec<(String, ProcessInfo, Color)>, now: u128) -> (r: Vec<SummaryRow>)
    requires
        now <= MAX_SPAN,
        forall|i: int| 0 <= i < snapshot.len() ==> tellable((#[trigger] snapshot@[i]).1, now),
    ensures
        r.len() == snapshot.len(),
        forall|i: int|
            0 <= i < r.len() ==> is_summary_row(#[trigger] r@[i], snapshot@[i], now),
{
    let mut r: Vec<SummaryRow> = Vec::new();
    let mut i: usize = 0;
    while i < snapshot.len()
        invariant
            i <= snapshot.len(),
            r.len() == i,
            now <= MAX_SPAN,
            forall|j: int| 0 <= j < snapshot.len() ==> tellable((#[trigger] snapshot@[j]).1, now),
            forall|j: int| 0 <= j < i ==> is_summary_row(#[trigger] r@[j], snapshot@[j], now),
        decreases snapshot.len() - i,
    {
        let info = &snapshot[i].1;
        assert(tellable(snapshot@[i as int].1, now));
        let span: u128 = match info.last_restart {
            Some(start) => match info.stopped_at {
                Some(end) => elapsed(start, end),
                None => elapsed(start, now),
            },
            None => 0,
        };
        r.push(
            SummaryRow {
                name: snapshot[i].0.clone(),
                color: snapshot[i].2,
                status: format_outcome(info, "unknown"),
                runtime: format_span(span),
            },
        );
        i += 1;
    }
    r
}

/// The larger of two lengths.
pub open spec fn longer(a: nat, b: nat) -> nat {
    if a > b {
        a
    } else {
        b
    }
}

/// The width of the column of names: that of the longest, or of its heading.
pub open spec fn name_column(rows: Seq<SummaryRow>) -> nat
    decreases rows.len(),
{
    if rows.len() == 0 {
        7
    } else {
        longer(name_column(rows.drop_last()), byte_len(rows.last().name@))
    }
}

/// The width of the column of outcomes.
pub open spec fn status_column(rows: Seq<SummaryRow>) -> nat
    decreases rows.len(),
{
    if rows.len() == 0 {
        6
    } else {
        longer(status_column(rows.drop_last()), byte_len(rows.last().status@))
    }
}

/// The width of the column of running times.
pub open spec fn runtime_column(rows: Seq<SummaryRow>) -> nat
    decreases rows.len(),
{
    if rows.len() == 0 {
        7
    } else {
        longer(runtime_column(rows.drop_last()), byte_len(rows.last().runtime@))
    }
}

/// The widths of the three columns.
pub fn summary_widths(rows: &Vec<SummaryRow>) -> (r: (usize, usize, usize))
    ensures
        r.0 == name_column(rows@),
        r.1 == status_column(rows@),
        r.2 == runtime_column(rows@),
{
    let mut name_w: usize = 7;
    let mut status_w: usize = 6;
    let mut runtime_w: usize = 7;
    let mut i: usize = 0;
    assert(rows@.take(0) =~= seq![]);
    while i < rows.len()
        invariant
            i <= rows.len(),
            name_w == name_column(rows@.take(i as int)),
            status_w == status_column(rows@.take(i as int)),
            runtime_w == runtime_column(rows@.take(i as int)),
        decreases rows.len() - i,
    {
        assert(rows@.take(i + 1).drop_last() =~= rows@.take(i as int));
        let a: usize = byte_len_of(rows[i].name.as_str());
        let b: usize = byte_len_of(rows[i].status.as_str());
        let c: usize = byte_len_of(rows[i].runtime.as_str());
        if a >= name_w {
            name_w = a;
        }
        if b >= status_w {
            status_w = b;
        }
        if c >= runtime_w {
            runtime_w = c;
        }
        i += 1;
    }
    assert(rows@.take(i as int) =~= rows@);
    (name_w, status_w, runtime_w)
}

/// A rule of the box. Each cell has a blank on either side.
pub open spec fn rule_of(left: Seq<char>, cross: Seq<char>, right: Seq<char>, w: (nat, nat, nat)) -> Seq<
    char,
> {
    left + repeated('─', w.0 + 2) + cross + repeated('─', w.1 + 2) + cross + repeated('─', w.2 + 2)
        + right
}

/// Appends the piece of a rule over a cell of the given width.
pub(crate) fn push_segment(out: &mut String, width: usize)
    ensures
        final(out)@ == old(out)@ + repeated('─', width as nat + 2),
{
    let ghost before = out@;
    push_repeated(out, '─', width);
    out.push('─');
    out.push('─');
    assert(out@ =~= before + repeated('─', width as nat + 2));
}

/// A rule of the box.
fn rule_line(left: &str, cross: &str, right: &str, a: usize, b: usize, c: usize) -> (r: String)
    ensures
        r@ == rule_of(left@, cross@, right@, (a as nat, b as nat, c as nat)),
{
    let mut r = left.to_owned();
    push_segment(&mut r, a);
    r.append(cross);
    push_segment(&mut r, b);
    r.append(cross);
    push_segment(&mut r, c);
    r.append(right);
    r
}

/// A row of the box, out of three cells and the edge between them.
pub open spec fn row_of(v: Seq<char>, a: Seq<char>, b: Seq<char>, c: Seq<char>) -> Seq<char> {
    "  "@ + v + " "@ + a + " "@ + v + " "@ + b + " "@ + v + " "@ + c + " "@ + v
}

/// A row of the box, out of three cells and the edge between them.
pub fn layout_row(v: &str, a: &str, b: &str, c: &str) -> (r: String)
    ensures
        r@ == row_of(v@, a@, b@, c@),
{
    "  ".to_owned().concat(v).concat(" ").concat(a).concat(" ").concat(v).concat(" ").concat(
        b,
    ).concat(" ").concat(v).concat(" ").concat(c).concat(" ").concat(v)
}

/// The colour of an outcome, as it stands in its cell.
pub open spec fn outcome_color(cell: Seq<char>) -> Color {
    if cell == "exit 0"@ {
        Color::Green
    } else if cell == "interrupted"@ {
        Color::Yellow
    } else if cell == "running"@ {
        Color::Cyan
    } else {
        Color::Red
    }
}

fn color_of_outcome(cell: &str) -> (r: Color)
    ensures
        r == outcome_color(cell@),
{
    if same_text(cell, "exit 0") {
        Color::Green
    } else if same_text(cell, "interrupted") {
        Color::Yellow
    } else if same_text(cell, "running") {
        Color::Cyan
    } else {
        Color::Red
    }
}

/// Whether `r` is the headings of the box, in bold where the terminal takes
/// styles.
pub open spec fn is_heading(r: Seq<char>, v: Seq<char>, w: (nat, nat, nat)) -> bool {
    exists|a: Seq<char>, b: Seq<char>, c: Seq<char>|
        #![trigger row_of(v, a, b, c)]
        {
            &&& paint_of(a, pad_right("process"@, w.0), bold_code())
            &&& paint_of(b, pad_right("status"@, w.1), bold_code())
            &&& paint_of(c, pad_right("runtime"@, w.2), bold_code())
            &&& r == row_of(v, a, b, c)
        }
}

/// Whether `r` is a row of the box. The name is in the colour of its process,
/// the outcome in its own, and the running time dimmed, where the terminal
/// takes colours.
pub open spec fn is_box_row(r: Seq<char>, v: Seq<char>, row: SummaryRow, w: (nat, nat, nat)) -> bool {
    exists|a: Seq<char>, b: Seq<char>, c: Seq<char>|
        #![trigger row_of(v, a, b, c)]
        {
            &&& paint_of(a, pad_right(row.name@, w.0), foreground(row.color))
            &&& paint_of(
                b,
                pad_right(row.status@, w.1),
                foreground(outcome_color(pad_right(row.status@, w.1))),
            )
            &&& paint_of(c, pad_right(row.runtime@, w.2), dimmed_code())
            &&& r == row_of(v, a, b, c)
        }
}

/// Whether `r` is `text` behind two blanks, in the given style where the
/// terminal takes styles.
pub open spec fn is_indented(r: Seq<char>, text: Seq<char>, codes: Seq<char>) -> bool {
    exists|cell: Seq<char>| #[trigger] paint_of(cell, text, codes) && r == "  "@ + cell
}

/// Whether `lines` is the summary with the given rows, where `v` is the edge of
/// the box.
pub open spec fn is_box(lines: Seq<String>, rows: Seq<SummaryRow>, v: Seq<char>) -> bool {
    let w = (name_column(rows), status_column(rows), runtime_column(rows));
    let grey = foreground(Color::BrightBlack);
    &&& paint_of(v, bar(), grey)
    &&& lines.len() == rows.len() + 7
    &&& lines[0]@ == ""@
    &&& is_indented(lines[1]@, "Session terminated"@, bold_code())
    &&& lines[2]@ == ""@
    &&& is_indented(lines[3]@, rule_of("╭"@, "┬"@, "╮"@, w), grey)
    &&& is_heading(lines[4]@, v, w)
    &&& is_indented(lines[5]@, rule_of("├"@, "┼"@, "┤"@, w), grey)
    &&& forall|i: int|
        0 <= i < rows.len() ==> is_box_row((#[trigger] lines[i + 6])@, v, rows[i], w)
    &&& is_indented(lines[lines.len() - 1]@, rule_of("╰"@, "┴"@, "╯"@, w), grey)
}

fn indented_in_grey(text: &str) -> (r: String)
    ensures
        is_indented(r@, text@, foreground(Color::BrightBlack)),
{
    let cell = tinted(text, Color::BrightBlack);
    let r = "  ".to_owned().concat(cell.as_str());
    assert(paint_of(cell@, text@, foreground(Color::BrightBlack)));
    r
}

/// The lines of the summary with the given rows.
pub fn layout_summary(rows: &Vec<SummaryRow>) -> (r: Vec<String>)
    ensures
        exists|v: Seq<char>| is_box(r@, rows@, v),
{
    let (name_w, status_w, runtime_w) = summary_widths(rows);
    let ghost w = (name_w as nat, status_w as nat, runtime_w as nat);
    let edge = tinted("│", Color::BrightBlack);
    let v = edge.as_str();
    let mut r: Vec<String> = Vec::new();
    r.push("".to_owned());
    let title = bold("Session terminated");
    r.push("  ".to_owned().concat(title.as_str()));
    assert(paint_of(title@, "Session terminated"@, bold_code()));
    r.push("".to_owned());
    r.push(indented_in_grey(rule_line("╭", "┬", "╮", name_w, status_w, runtime_w).as_str()));
    let a = bold(padded_right("process", name_w).as_str());
    let b = bold(padded_right("status", status_w).as_str());
    let c = bold(padded_right("runtime", runtime_w).as_str());
    r.push(layout_row(v, a.as_str(), b.as_str(), c.as_str()));
    r.push(indented_in_grey(rule_line("├", "┼", "┤", name_w, status_w, runtime_w).as_str()));
    let ghost head = r@;
    assert(is_heading(head[4]@, v@, w));
    assert(is_indented(head[1]@, "Session terminated"@, bold_code()));
    let mut i: usize = 0;
    while i < rows.len()
        invariant
            i <= rows.len(),
            r.len() == i + 6,
            head.len() == 6,
            v@ == edge@,
            w == (name_w as nat, status_w as nat, runtime_w as nat),
            forall|j: int| 0 <= j < 6 ==> #[trigger] r@[j] == head[j],
            forall|j: int| 0 <= j < i ==> is_box_row((#[trigger] r@[j + 6])@, v@, rows@[j], w),
        decreases rows.len() - i,
    {
        let row = &rows[i];
        let name_cell = tinted(padded_right(row.name.as_str(), name_w).as_str(), row.color);
        let status_text = padded_right(row.status.as_str(), status_w);
        let status_cell = tinted(status_text.as_str(), color_of_outcome(status_text.as_str()));
        let runtime_cell = dimmed(padded_right(row.runtime.as_str(), runtime_w).as_str());
        let line = layout_row(
            v,
            name_cell.as_str(),
            status_cell.as_str(),
            runtime_cell.as_str(),
        );
        assert(is_box_row(line@, v@, rows@[i as int], w));
        let ghost before = r@;
        r.push(line);
        assert forall|j: int| 0 <= j < i + 1 implies is_box_row(
            (#[trigger] r@[j + 6])@,
            v@,
            rows@[j],
            w,
        ) by {
            if j < i {
                assert(r@[j + 6] == before[j + 6]);
            }
        }
        i += 1;
    }
    let ghost before = r@;
    r.push(indented_in_grey(rule_line("╰", "┴", "╯", name_w, status_w, runtime_w).as_str()));
    assert forall|j: int| 0 <= j < rows.len() implies is_box_row(
        (#[trigger] r@[j + 6])@,
        v@,
        rows@[j],
        w,
    ) by {
        assert(r@[j + 6] == before[j + 6]);
    }
    assert forall|j: int| 0 <= j < 6 implies #[trigger] r@[j] == head[j] by {
        assert(before[j] == head[j]);
    }
    assert(is_box(r@, rows@, v@)) by {
        assert(r@[0] == head[0] && r@[1] == head[1] && r@[2] == head[2] && r@[3] == head[3]
            && r@[4] == head[4] && r@[5] == head[5]);
    }
    r
}

/// The summary of a session.
pub fn show_termination_summary(manager: &ProcessManager, now: u128) -> (r: Vec<String>)
    requires
        now <= MAX_SPAN,
        forall|name: Seq<char>| #[trigger]
            manager.runtime.processes@.contains_key(name) ==> tellable(
                manager.runtime.processes@[name],
                now,
            ),
    ensures
        exists|rows: Seq<SummaryRow>, v: Seq<char>|
            {
                let names = manager.runtime.processes.names();
                &&& #[trigger] is_box(r@, rows, v)
                &&& rows.len() == names.len()
                &&& forall|i: int|
                    0 <= i < rows.len() ==> {
                        let info = manager.runtime.processes@[names[i]];
                        &&& (#[trigger] rows[i]).name@ == names[i]
                        &&& rows[i].color == manager.color_of(names[i])
                        &&& rows[i].status@ == outcome_text(info, "unknown"@)
                        &&& rows[i].runtime@ == long_time(last_session(info, now))
                    }
            },
{
    let snapshot = manager.process_snapshot();
    let ghost names = manager.runtime.processes.names();
    proof {
        assert forall|i: int| 0 <= i < snapshot.len() implies tellable(
            (#[trigger] snapshot@[i]).1,
            now,
        ) by {
            crate::name_map::NameMap::lemma_listed(manager.runtime.processes, names[i]);
            assert(names.contains(names[i]));
        }
    }
    let rows = summary_rows(&snapshot, now);
    let r = layout_summary(&rows);
    proof {
        let v = choose|v: Seq<char>| is_box(r@, rows@, v);
        assert(is_box(r@, rows@, v));
        assert forall|i: int| 0 <= i < rows.len() implies ({
            let info = manager.runtime.processes@[names[i]];
            &&& (#[trigger] rows@[i]).name@ == names[i]
            &&& rows@[i].color == manager.color_of(names[i])
            &&& rows@[i].status@ == outcome_text(info, "unknown"@)
            &&& rows@[i].runtime@ == long_time(last_session(info, now))
        }) by {
            assert(is_summary_row(rows@[i], snapshot@[i], now));
        }
    }
    r
}

/// How long the last session of a process took, on the console: a process that
/// has neither stopped nor runs has none.
pub open spec fn console_session(info: ProcessInfo, now: u128) -> u128 {
    match (info.last_restart, info.stopped_at) {
        (Some(start), Some(end)) => time_since(start, end),
        (Some(start), None) => if info.status == ProcessStatus::Running {
            time_since(start, now)
        } else {
            0
        },
        (None, _) => 0,
    }
}

/// The running time of the last session, with the total in brackets where it is
/// longer by a second or more.
pub open spec fn console_runtime(info: ProcessInfo, now: u128) -> Seq<char> {
    let last = console_session(info, now) as nat;
    let total = total_runtime(info, now);
    if last / 1_000_000_000 == 0 && total / 1_000_000_000 == 0 {
        "N/A"@
    } else if total > last && (total - last) as nat / 1_000_000_000 > 0 {
        short_time(last / 1_000_000_000) + " ("@ + short_time(total / 1_000_000_000) + ")"@
    } else {
        short_time(last / 1_000_000_000)
    }
}

/// The running time of the last session, on the console.
pub fn format_console_runtime(info: &ProcessInfo, now: u128) -> (r: String)
    requires
        now <= MAX_SPAN,
        tellable(*info, now),
    ensures
        r@ == console_runtime(*info, now),
{
    let last: u128 = match info.last_restart {
        Some(start) => match info.stopped_at {
            Some(end) => elapsed(start, end),
            None => if info.status == ProcessStatus::Running {
                elapsed(start, now)
            } else {
                0
            },
        },
        None => 0,
    };
    let total: u128 = runtime_so_far(info, now);
    if whole_secs(last) == 0 && whole_secs(total) == 0 {
        return "N/A".to_owned();
    }
    let text = format_secs(whole_secs(last));
    if total > last && whole_secs(total - last) > 0 {
        text.concat(" (").concat(format_secs(whole_secs(total)).as_str()).concat(")")
    } else {
        text
    }
}

/// How often a process was restarted, in brackets.
pub open spec fn bracketed_restarts(n: nat) -> Seq<char> {
    if n > 0 {
        " ["@ + decimal(n) + " restarts]"@
    } else {
        ""@
    }
}

/// A row of the console's summary, where `cell` shows the name.
pub open spec fn console_row_of(cell: Seq<char>, info: ProcessInfo, now: u128) -> Seq<char> {
    cell + "  "@ + pad_left(outcome_text(info, "restarting"@), 12) + "  "@ + pad_left(
        console_runtime(info, now),
        12,
    ) + bracketed_restarts(info.restart_count as nat)
}

/// A row of the console's summary.
pub fn layout_console_row(cell: &str, info: &ProcessInfo, now: u128) -> (r: String)
    requires
        now <= MAX_SPAN,
        tellable(*info, now),
    ensures
        r@ == console_row_of(cell@, *info, now),
{
    let status = format_outcome(info, "restarting");
    let runtime = format_console_runtime(info, now);
    let mut restarts = String::new();
    if info.restart_count > 0 {
        restarts = " [".to_owned();
        push_decimal(&mut restarts, info.restart_count as u64);
        restarts.append(" restarts]");
    }
    assert(restarts@ =~= bracketed_restarts(info.restart_count as nat)) by {
        reveal_strlit("");
    }
    cell.to_owned().concat("  ").concat(padded_left(status.as_str(), 12).as_str()).concat(
        "  ",
    ).concat(padded_left(runtime.as_str(), 12).as_str()).concat(restarts.as_str())
}

/// The colour of a name in the console's summary. A process without a colour is
/// cyan.
pub open spec fn console_color(manager: ProcessManager, name: Seq<char>) -> Color {
    if manager.config.colors@.contains_key(name) {
        manager.config.colors@[name]
    } else {
        Color::Cyan
    }
}

/// Whether `r` is a row of the console's summary, with the name in its colour
/// where the terminal takes colours.
pub open spec fn is_console_row(
    r: Seq<char>,
    manager: ProcessManager,
    name: Seq<char>,
    now: u128,
) -> bool {
    exists|cell: Seq<char>|
        #![trigger console_row_of(cell, manager.runtime.processes@[name], now)]
        {
            &&& paint_of(cell, pad_left(name, 12), foreground(console_color(manager, name)))
            &&& r == console_row_of(cell, manager.runtime.processes@[name], now)
        }
}

/// The headings of the console's summary, out of three cells.
pub open spec fn console_heading_of(a: Seq<char>, b: Seq<char>, c: Seq<char>) -> Seq<char> {
    a + "  "@ + b + "  "@ + c
}

/// The headings of the console's summary, out of three cells.
pub fn layout_console_heading(a: &str, b: &str, c: &str) -> (r: String)
    ensures
        r@ == console_heading_of(a@, b@, c@),
{
    a.to_owned().concat("  ").concat(b).concat("  ").concat(c)
}

/// Whether `r` is the headings of the console's summary, in green where the
/// terminal takes colours.
pub open spec fn is_console_heading(r: Seq<char>) -> bool {
    exists|a: Seq<char>, b: Seq<char>, c: Seq<char>|
        #![trigger console_heading_of(a, b, c)]
        {
            &&& paint_of(a, pad_left("process"@, 12), foreground(Color::Green))
            &&& paint_of(b, pad_left("status"@, 12), foreground(Color::Green))
            &&& paint_of(c, pad_left("runtime"@, 12), foreground(Color::Green))
            &&& r == console_heading_of(a, b, c)
        }
}

/// The lines of the console's summary.
pub fn show_console_summary(manager: &ProcessManager, now: u128) -> (r: Vec<String>)
    requires
        now <= MAX_SPAN,
        forall|name: Seq<char>| #[trigger]
            manager.runtime.processes@.contains_key(name) ==> tellable(
                manager.runtime.processes@[name],
                now,
            ),
    ensures
        r.len() == manager.runtime.processes.names().len() + 6,
        r@[0]@ == "\n"@ + repeated('=', TERMINAL_SEPARATOR_WIDTH as nat),
        r@[1]@ == "Session terminated, summary:"@,
        r@[2]@ == ""@,
        is_console_heading(r@[3]@),
        r@[4]@ == repeated('-', 42),
        forall|i: int|
            0 <= i < manager.runtime.processes.names().len() ==> is_console_row(
                (#[trigger] r@[i + 5])@,
                *manager,
                manager.runtime.processes.names()[i],
                now,
            ),
        r@[r.len() - 1]@ == "\n"@,
{
    let processes = &manager.runtime.processes;
    let mut r: Vec<String> = Vec::new();
    let mut line = "\n".to_owned();
    push_repeated(&mut line, '=', TERMINAL_SEPARATOR_WIDTH);
    r.push(line);
    r.push("Session terminated, summary:".to_owned());
    r.push("".to_owned());
    let a = tinted(padded_left("process", 12).as_str(), Color::Green);
    let b = tinted(padded_left("status", 12).as_str(), Color::Green);
    let c = tinted(padded_left("runtime", 12).as_str(), Color::Green);
    r.push(layout_console_heading(a.as_str(), b.as_str(), c.as_str()));
    let mut rule = String::new();
    push_repeated(&mut rule, '-', 42);
    assert(rule@ =~= repeated('-', 42));
    r.push(rule);
    let ghost head = r@;
    assert(is_console_heading(head[3]@));
    let n = processes.len();
    let mut i: usize = 0;
    while i < n
        invariant
            i <= n == processes.names().len(),
            *processes == manager.runtime.processes,
            now <= MAX_SPAN,
            r.len() == i + 5,
            head.len() == 5,
            forall|name: Seq<char>| #[trigger]
                processes@.contains_key(name) ==> tellable(processes@[name], now),
            forall|j: int| 0 <= j < 5 ==> #[trigger] r@[j] == head[j],
            forall|j: int|
                0 <= j < i ==> is_console_row(
                    (#[trigger] r@[j + 5])@,
                    *manager,
                    processes.names()[j],
                    now,
                ),
        decreases n - i,
    {
        let name = processes.name_at(i).as_str();
        let info = processes.value_at(i);
        let color = match manager.config.colors.get(name) {
            Some(color) => *color,
            None => Color::Cyan,
        };
        let cell = tinted(padded_left(name, 12).as_str(), color);
        let row = layout_console_row(cell.as_str(), info, now);
        assert(is_console_row(row@, *manager, processes.names()[i as int], now));
        let ghost before = r@;
        r.push(row);
        assert forall|j: int| 0 <= j < i + 1 implies is_console_row(
            (#[trigger] r@[j + 5])@,
            *manager,
            processes.names()[j],
            now,
        ) by {
            if j < i {
                assert(r@[j + 5] == before[j + 5]);
            }
        }
        i += 1;
    }
    let ghost before = r@;
    r.push("\n".to_owned());
    assert forall|j: int| 0 <= j < n implies is_console_row(
        (#[trigger] r@[j + 5])@,
        *manager,
        processes.names()[j],
        now,
    ) by {
        assert(r@[j + 5] == before[j + 5]);
    }
    assert(r@[0] == head[0] && r@[1] == head[1] && r@[2] == head[2] && r@[3] == head[3] && r@[4]
        == head[4]) by {
        assert(before[0] == head[0] && before[1] == head[1] && before[2] == head[2] && before[3]
            == head[3] && before[4] == head[4]);
    }
    r
}

/// The exit code of a process that came to an end is told by its digits behind
/// `exit`, except for the codes of forced termination and of interrupts. Different
/// codes are told differently, and success is told of code 0 alone.
pub proof fn law_exit_codes_are_told(code: i32, other: i32)
    requires
        code != -1 && code != 512 && code != -1073741510,
        other != -1 && other != 512 && other != -1073741510,
    ensures
        end_text(Some(code)) == "exit "@ + signed_decimal(code as int),
        end_text(Some(code)) == end_text(Some(other)) ==> code == other,
        end_text(Some(code)) == "exit 0"@ <==> code == 0,
        end_text(Some(code)) != end_text(None),
        end_text(Some(code)) != end_text(Some(-1i32)),
        end_text(Some(code)) != end_text(Some(512i32)),
{
    let e = "exit "@;
    reveal_strlit("exit ");
    reveal_strlit("exit 0");
    reveal_strlit("stopped");
    reveal_strlit("terminated");
    reveal_strlit("interrupted");
    assert(end_text(Some(code)).skip(5) =~= signed_decimal(code as int));
    assert(end_text(Some(other)).skip(5) =~= signed_decimal(other as int));
    assert(end_text(Some(0i32)) =~= "exit 0"@);
    assert("exit 0"@.skip(5) =~= signed_decimal(0));
    if end_text(Some(code)) == end_text(Some(other)) {
        law_signed_decimal_tells_numbers_apart(code as int, other as int);
    }
    if end_text(Some(code)) == "exit 0"@ {
        law_signed_decimal_tells_numbers_apart(code as int, 0);
    }
    assert(end_text(Some(code))[0] == 'e');
    assert("stopped"@[0] == 's' && "terminated"@[0] == 't' && "interrupted"@[0] == 'i');
}

/// A process without an exit code was stopped, and the codes of forced termination
/// and of interrupts have words of their own.
pub proof fn law_ends_without_a_code_have_words()
    ensures
        end_text(None) == "stopped"@,
        end_text(Some(-1i32)) == "terminated"@,
        end_text(Some(512i32)) == "interrupted"@,
        end_text(Some(-1073741510i32)) == "interrupted"@,
{
}

/// The summary says that a process runs if and only if it does, and tells the end
/// of a stopped one alone.
pub proof fn law_outcome_goes_by_status(info: ProcessInfo, word: Seq<char>)
    ensures
        info.status == ProcessStatus::Running ==> outcome_text(info, word) == "running"@,
        info.status == ProcessStatus::Stopped ==> outcome_text(info, word) == end_text(
            info.exit_code,
        ) && outcome_text(info, word) != "running"@,
        info.status == ProcessStatus::Restarting ==> outcome_text(info, word) == word,
{
    reveal_strlit("exit ");
    reveal_strlit("stopped");
    reveal_strlit("terminated");
    reveal_strlit("interrupted");
    reveal_strlit("running");
    assert("running"@[0] == 'r');
    assert("exit "@[0] == 'e' && "stopped"@[0] == 's' && "terminated"@[0] == 't'
        && "interrupted"@[0] == 'i');
    match info.exit_code {
        Some(code) => {
            assert(("exit "@ + signed_decimal(code as int))[0] == 'e');
        },
        None => {},
    }
}

/// The numbers of a span make it up, to the second: hours, minutes below sixty and
/// seconds below sixty, as far as there are any. A span below a second is told in
/// milliseconds, and one below a millisecond is not.
pub proof fn law_long_time_adds_up(span: u128)
    ensures
        span >= 3600 * 1_000_000_000 ==> exists|a: nat, b: nat, c: nat|
            #![trigger decimal(a), decimal(b), decimal(c)]
            {
                &&& long_time(span) == decimal(a) + "h "@ + decimal(b) + "m "@ + decimal(c) + "s"@
                &&& b < 60 && c < 60
                &&& (3600 * a + 60 * b + c) * 1_000_000_000 <= span < (3600 * a + 60 * b + c + 1)
                    * 1_000_000_000
            },
        60 * 1_000_000_000 <= span < 3600 * 1_000_000_000 ==> exists|b: nat, c: nat|
            #![trigger decimal(b), decimal(c)]
            {
                &&& long_time(span) == decimal(b) + "m "@ + decimal(c) + "s"@
                &&& c < 60
                &&& (60 * b + c) * 1_000_000_000 <= span < (60 * b + c + 1) * 1_000_000_000
            },
        1_000_000_000 <= span < 60 * 1_000_000_000 ==> exists|c: nat|
            {
                &&& long_time(span) == #[trigger] decimal(c) + "s"@
                &&& c * 1_000_000_000 <= span < (c + 1) * 1_000_000_000
            },
        1_000_000 <= span < 1_000_000_000 ==> exists|c: nat|
            {
                &&& long_time(span) == #[trigger] decimal(c) + "ms"@
                &&& c * 1_000_000 <= span < (c + 1) * 1_000_000
            },
        span < 1_000_000 ==> long_time(span) == "N/A"@,
{
    let n = secs(span);
    let a = n / 3600;
    let b = (n % 3600) / 60;
    let c = n % 60;
    assert(n == 3600 * a + 60 * b + c);
    if n >= 3600 {
        assert(long_time(span) == decimal(a) + "h "@ + decimal(b) + "m "@ + decimal(c) + "s"@);
    } else if n >= 60 {
        assert(b == n / 60);
        assert(long_time(span) == decimal(b) + "m "@ + decimal(c) + "s"@);
    } else if n >= 1 {
        assert(long_time(span) == decimal(n) + "s"@);
    } else if span >= 1_000_000 {
        assert(long_time(span) == decimal(span as nat / 1_000_000) + "ms"@);
    }
}

/// The last session of a process lasted from its start to its end, or to now where
/// it goes on.
pub proof fn law_last_session_is_from_start_to_end(info: ProcessInfo, now: u128)
    ensures
        info.last_restart is None ==> last_session(info, now) == 0 && console_session(info, now)
            == 0,
        info.last_restart matches Some(start) ==> {
            &&& info.stopped_at matches Some(end) ==> (start <= end ==> {
                &&& start + last_session(info, now) == end
                &&& start + console_session(info, now) == end
            })
            &&& info.stopped_at is None && start <= now ==> start + last_session(info, now) == now
            &&& info.stopped_at is None && start <= now && info.status == ProcessStatus::Running
                ==> start + console_session(info, now) == now
            &&& info.stopped_at is None && info.status != ProcessStatus::Running
                ==> console_session(info, now) == 0
        },
{
}

/// The columns are as wide as their headings and as every cell below them, and no
/// wider than the widest of these.
pub proof fn law_columns_hold_their_cells(rows: Seq<SummaryRow>)
    ensures
        name_column(rows) >= 7 && status_column(rows) >= 6 && runtime_column(rows) >= 7,
        forall|i: int|
            0 <= i < rows.len() ==> {
                &&& byte_len((#[trigger] rows[i]).name@) <= name_column(rows)
                &&& byte_len(rows[i].status@) <= status_column(rows)
                &&& byte_len(rows[i].runtime@) <= runtime_column(rows)
            },
        name_column(rows) == 7 || exists|i: int|
            0 <= i < rows.len() && byte_len((#[trigger] rows[i]).name@) == name_column(rows),
        status_column(rows) == 6 || exists|i: int|
            0 <= i < rows.len() && byte_len((#[trigger] rows[i]).status@) == status_column(rows),
        runtime_column(rows) == 7 || exists|i: int|
            0 <= i < rows.len() && byte_len((#[trigger] rows[i]).runtime@) == runtime_column(rows),
    decreases rows.len(),
{
    if rows.len() > 0 {
        let init = rows.drop_last();
        law_columns_hold_their_cells(init);
        assert forall|i: int| 0 <= i < rows.len() implies {
            &&& byte_len((#[trigger] rows[i]).name@) <= name_column(rows)
            &&& byte_len(rows[i].status@) <= status_column(rows)
            &&& byte_len(rows[i].runtime@) <= runtime_column(rows)
        } by {
            if i < init.len() {
                assert(init[i] == rows[i]);
            }
        }
        let last = rows.len() - 1;
        if name_column(rows) != byte_len(rows[last].name@) && name_column(rows) != 7 {
            let i = choose|i: int|
                0 <= i < init.len() && byte_len((#[trigger] init[i]).name@) == name_column(init);
            assert(rows[i] == init[i]);
        }
        if status_column(rows) != byte_len(rows[last].status@) && status_column(rows) != 6 {
            let i = choose|i: int|
                0 <= i < init.len() && byte_len((#[trigger] init[i]).status@) == status_column(
                    init,
                );
            assert(rows[i] == init[i]);
        }
        if runtime_column(rows) != byte_len(rows[last].runtime@) && runtime_column(rows) != 7 {
            let i = choose|i: int|
                0 <= i < init.len() && byte_len((#[trigger] init[i]).runtime@) == runtime_column(
                    init,
                );
            assert(rows[i] == init[i]);
        }
    }
}

/// The box lines up: an indented rule is as long as a row with cells as wide as the
/// columns, and the rule meets its edges where the row has its own.
pub proof fn law_box_lines_up(
    left: char,
    cross: char,
    right: char,
    edge: char,
    a: Seq<char>,
    b: Seq<char>,
    c: Seq<char>,
)
    ensures
        ({
            let rule = "  "@ + rule_of(
                seq![left],
                seq![cross],
                seq![right],
                (a.len(), b.len(), c.len()),
            );
            let row = row_of(seq![edge], a, b, c);
            let second = (5 + a.len()) as int;
            let third = (second + 3 + b.len()) as int;
            let last = (third + 3 + c.len()) as int;
            &&& rule.len() == row.len() == last + 1
            &&& rule[2] == left && row[2] == edge
            &&& rule[second] == cross && row[second] == edge
            &&& rule[third] == cross && row[third] == edge
            &&& rule[last] == right && row[last] == edge
            &&& row.subrange(4, (4 + a.len()) as int) == a
            &&& row.subrange(second + 2, second + 2 + b.len()) == b
            &&& row.subrange(third + 2, third + 2 + c.len()) == c
            &&& forall|i: int|
                2 <= i <= last && i != 2 && i != second && i != third && i != last
                    ==> #[trigger] rule[i] == '─'
        }),
{
    reveal_strlit("  ");
    reveal_strlit(" ");
    let row = row_of(seq![edge], a, b, c);
    let second = (5 + a.len()) as int;
    let third = (second + 3 + b.len()) as int;
    assert(row.subrange(4, (4 + a.len()) as int) =~= a);
    assert(row.subrange(second + 2, second + 2 + b.len()) =~= b);
    assert(row.subrange(third + 2, third + 2 + c.len()) =~= c);
}

/// Success is green, an interrupt yellow, a process that runs cyan, and every other
/// outcome red.
pub proof fn law_outcome_has_its_color(cell: Seq<char>)
    ensures
        outcome_color(cell) == Color::Green <==> cell == "exit 0"@,
        outcome_color(cell) == Color::Yellow <==> cell == "interrupted"@,
        outcome_color(cell) == Color::Cyan <==> cell == "running"@,
        cell != "exit 0"@ && cell != "interrupted"@ && cell != "running"@ ==> outcome_color(cell)
            == Color::Red,
{
    reveal_strlit("exit 0");
    reveal_strlit("interrupted");
    reveal_strlit("running");
    assert("exit 0"@[0] == 'e' && "interrupted"@[0] == 'i' && "running"@[0] == 'r');
}

/// The console tells the whole seconds of the last session, and in brackets those
/// of all sessions where they are longer by a second or more. Where neither makes
/// up a second, it tells nothing.
pub proof fn law_console_runtime_is_told_in_seconds(
    info: ProcessInfo,
    now: u128,
    last: nat,
    total: nat,
)
    requires
        last * 1_000_000_000 <= console_session(info, now) < (last + 1) * 1_000_000_000,
        total * 1_000_000_000 <= total_runtime(info, now) < (total + 1) * 1_000_000_000,
    ensures
        last == 0 && total == 0 ==> console_runtime(info, now) == "N/A"@,
        last > 0 || total > 0 ==> console_runtime(info, now) == if total_runtime(info, now)
            - console_session(info, now) >= 1_000_000_000 {
            short_time(last) + " ("@ + short_time(total) + ")"@
        } else {
            short_time(last)
        },
{
}

/// Restarts are told by their digits in brackets, and none is told by nothing.
pub proof fn law_bracketed_restarts_are_told(n: nat)
    ensures
        n == 0 ==> bracketed_restarts(n).len() == 0,
        n > 0 ==> bracketed_restarts(n) == " ["@ + decimal(n) + " restarts]"@,
{
    reveal_strlit("");
}

/// A row of the console's summary shows the name, the outcome, the running time and
/// the restarts, in this order.
pub proof fn law_console_row_shows_its_process(cell: Seq<char>, info: ProcessInfo, now: u128)
    ensures
        exists|a: nat, b: nat|
            #![trigger repeated(' ', a), repeated(' ', b)]
            {
                &&& console_row_of(cell, info, now) == cell + "  "@ + repeated(' ', a)
                    + outcome_text(info, "restarting"@) + "  "@ + repeated(' ', b)
                    + console_runtime(info, now) + bracketed_restarts(info.restart_count as nat)
                &&& a == missing(12, outcome_text(info, "restarting"@).len())
                &&& b == missing(12, console_runtime(info, now).len())
            },
{
    let o = outcome_text(info, "restarting"@);
    let r = console_runtime(info, now);
    let a = missing(12, o.len());
    let b = missing(12, r.len());
    assert(console_row_of(cell, info, now) =~= cell + "  "@ + repeated(' ', a) + o + "  "@
        + repeated(' ', b) + r + bracketed_restarts(info.restart_count as nat));
}

/// A name has the colour of its process in the console's summary, and is cyan without
/// one.
pub proof fn law_console_names_have_their_color(manager: ProcessManager, name: Seq<char>)
    ensures
        manager.config.colors@.contains_key(name) ==> console_color(manager, name)
            == manager.config.colors@[name],
        !manager.config.colors@.contains_key(name) ==> console_color(manager, name) == Color::Cyan,
{
}

/// The box has a title, a heading and a row for each process, in their order. Each row
/// shows the name, the outcome and the running time of its own process, padded to the
/// width of the column.
pub proof fn law_box_shows_every_row(
    lines: Seq<String>,
    rows: Seq<SummaryRow>,
    v: Seq<char>,
    i: int,
)
    requires
        is_box(lines, rows, v),
        0 <= i < rows.len(),
    ensures
        lines.len() == rows.len() + 7,
        stands_behind_blanks(lines[1]@, "Session terminated"@, seq!['1']),
        ({
            let w = (name_column(rows), status_column(rows), runtime_column(rows));
            &&& stands_behind_blanks(lines[3]@, rule_of("╭"@, "┬"@, "╮"@, w), seq!['9', '0'])
            &&& stands_behind_blanks(lines[5]@, rule_of("├"@, "┼"@, "┤"@, w), seq!['9', '0'])
            &&& stands_behind_blanks(lines.last()@, rule_of("╰"@, "┴"@, "╯"@, w), seq!['9', '0'])
        }),
        lines[0]@.len() == 0 && lines[2]@.len() == 0,
        exists|a: Seq<char>, b: Seq<char>, c: Seq<char>|
            #![trigger row_of(v, a, b, c)]
            {
                &&& lines[i + 6]@ == row_of(v, a, b, c)
                &&& paint_of(a, pad_right(rows[i].name@, name_column(rows)), foreground(rows[i].color))
                &&& paint_of(
                    b,
                    pad_right(rows[i].status@, status_column(rows)),
                    foreground(outcome_color(pad_right(rows[i].status@, status_column(rows)))),
                )
                &&& paint_of(c, pad_right(rows[i].runtime@, runtime_column(rows)), seq!['2'])
            },
        is_heading(lines[4]@, v, (name_column(rows), status_column(rows), runtime_column(rows))),
{
    let w = (name_column(rows), status_column(rows), runtime_column(rows));
    reveal_strlit("");
    assert(is_box_row(lines[i + 6]@, v, rows[i], w));
    assert(is_indented(lines[1]@, "Session terminated"@, bold_code()));
    assert(is_indented(lines[5]@, rule_of("├"@, "┼"@, "┤"@, w), foreground(Color::BrightBlack)));
    lemma_indented(lines[1]@, "Session terminated"@, seq!['1']);
    lemma_indented(lines[3]@, rule_of("╭"@, "┬"@, "╮"@, w), seq!['9', '0']);
    lemma_indented(lines[5]@, rule_of("├"@, "┼"@, "┤"@, w), seq!['9', '0']);
    lemma_indented(lines.last()@, rule_of("╰"@, "┴"@, "╯"@, w), seq!['9', '0']);
}

/// Whether a line is two blanks and the text, painted with the given parameters where the
/// terminal takes styles.
pub open spec fn stands_behind_blanks(line: Seq<char>, text: Seq<char>, codes: Seq<char>) -> bool {
    exists|cell: Seq<char>| #[trigger]
        paint_of(cell, text, codes) && line == seq![' ', ' '] + cell
}

proof fn lemma_indented(line: Seq<char>, text: Seq<char>, codes: Seq<char>)
    requires
        is_indented(line, text, codes),
    ensures
        stands_behind_blanks(line, text, codes),
{
    reveal_strlit("  ");
    let cell = choose|cell: Seq<char>| #[trigger] paint_of(cell, text, codes) && line == "  "@
        + cell;
    assert(paint_of(cell, text, codes) && line =~= seq![' ', ' '] + cell);
}

/// A row of the summary tells the name of its process, how it ended and how long its
/// last session took.
pub proof fn law_summary_row_tells_its_process(
    row: SummaryRow,
    process: (String, ProcessInfo, Color),
    now: u128,
)
    requires
        is_summary_row(row, process, now),
    ensures
        row.name@ == process.0@ && row.color == process.2,
        process.1.status == ProcessStatus::Running ==> row.status@ == "running"@,
        process.1.status == ProcessStatus::Restarting ==> row.status@ == "unknown"@,
        process.1.status == ProcessStatus::Stopped ==> row.status@ == end_text(process.1.exit_code),
        row.runtime@ == long_time(last_session(process.1, now)),
{
}

/// The headings name their columns, at the left of the box and at the right ends of the
/// console's columns, in bold and in green.
pub proof fn law_headings_name_their_columns(
    r: Seq<char>,
    v: Seq<char>,
    w: (nat, nat, nat),
    line: Seq<char>,
)
    requires
        is_heading(r, v, w),
        is_console_heading(line),
    ensures
        exists|a: Seq<char>, b: Seq<char>, c: Seq<char>|
            {
                &&& paint_of(a, pad_right("process"@, w.0), seq!['1'])
                &&& paint_of(b, pad_right("status"@, w.1), seq!['1'])
                &&& paint_of(c, pad_right("runtime"@, w.2), seq!['1'])
                &&& r == #[trigger] row_of(v, a, b, c)
            },
        exists|a: Seq<char>, b: Seq<char>, c: Seq<char>|
            {
                &&& paint_of(a, pad_left("process"@, 12), seq!['3', '2'])
                &&& paint_of(b, pad_left("status"@, 12), seq!['3', '2'])
                &&& paint_of(c, pad_left("runtime"@, 12), seq!['3', '2'])
                &&& line == #[trigger] (a + "  "@ + b + "  "@ + c)
            },
{
    let (a, b, c) = choose|a: Seq<char>, b: Seq<char>, c: Seq<char>|
        #![trigger console_heading_of(a, b, c)]
        {
            &&& paint_of(a, pad_left("process"@, 12), foreground(Color::Green))
            &&& paint_of(b, pad_left("status"@, 12), foreground(Color::Green))
            &&& paint_of(c, pad_left("runtime"@, 12), foreground(Color::Green))
            &&& line == console_heading_of(a, b, c)
        };
    assert(line == a + "  "@ + b + "  "@ + c);
}

/// A row of the console's summary shows its process under its name, in its colour.
pub proof fn law_console_row_is_of_its_process(
    r: Seq<char>,
    manager: ProcessManager,
    name: Seq<char>,
    now: u128,
)
    requires
        is_console_row(r, manager, name, now),
    ensures
        exists|cell: Seq<char>|
            {
                &&& paint_of(cell, pad_left(name, 12), foreground(console_color(manager, name)))
                &&& r == #[trigger] console_row_of(cell, manager.runtime.processes@[name], now)
            },
{
}

} // verus!
