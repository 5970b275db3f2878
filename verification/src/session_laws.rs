//! What can be relied on over a session: its settings, its log file, its banner and
//! its course.

use vstd::prelude::*;
use crate::color::{bold_in, foreground, paint_of, Color};
use crate::name_map::NameMap;
use crate::output::announced;
use crate::process_manager::{loads, LifecycleOptions, ProcessManager};
use crate::procfile::{assigned, entries, env_view};
use crate::session::{
    agrees, asks_for_dir, banner_rows, banner_text, boxed, collects, env_of_args, first_bad_arg,
    first_unknown, is_banner, is_banner_row, is_banner_title, is_compact_banner, loads_selected,
    names_to_start, processes_text, rotated_name, rotation_step, run_next, selects, shutdown_span,
    value_column, LogDirStep, RotationStep, RunAction, RunPhase,
};
use crate::text::{decimal, is_white, joined, lines, missing, pad_right, parted, repeated, texts};
use crate::text_laws::{
    law_decimal_stands_for_number, law_parted_at_first, law_parted_gives_parts_back,
    law_trimmed_drops_what_is_around, value_of,
};
use crate::types::{ProcessError, ProcessInfo};

verus! {

/// An argument gives the variable before its first `=` the value behind it, as they
/// stand, over any value from an argument before. No other variable changes.
pub proof fn law_argument_sets_one_variable(
    args: Seq<Seq<char>>,
    key: Seq<char>,
    value: Seq<char>,
    other: Seq<char>,
)
    requires
        !key.contains('='),
        other != key,
    ensures
        ({
            let before = env_of_args(args);
            let after = env_of_args(args.push(key + seq!['='] + value));
            &&& after.contains_key(key) && after[key] == value
            &&& after.contains_key(other) == before.contains_key(other)
            &&& before.contains_key(other) ==> after[other] == before[other]
        }),
        env_of_args(Seq::<Seq<char>>::empty()) == Map::<Seq<char>, Seq<char>>::empty(),
{
    let arg = key + seq!['='] + value;
    law_parted_gives_parts_back(key, '=', value);
    assert(args.push(arg).drop_last() =~= args);
}

/// The variables of a session come from arguments that all assign something. An
/// argument that assigns nothing is refused as it stands.
pub proof fn law_arguments_have_to_assign(
    args: Seq<Seq<char>>,
    r: Result<NameMap<String>, ProcessError>,
)
    requires
        collects(args, None, r),
    ensures
        r is Ok <==> forall|i: int| 0 <= i < args.len() ==> (#[trigger] args[i]).contains('='),
        r matches Ok(env) ==> env_view(env) == env_of_args(args),
        r matches Err(e) ==> (e matches ProcessError::InvalidFormat { line } && args.contains(line@)
            && !line@.contains('=')),
{
    assert forall|i: int| 0 <= i < args.len() implies (parted(#[trigger] args[i], '=') is Some)
        == args[i].contains('=') by {
        law_parted_at_first(args[i], '=');
    }
    if r is Err {
        let e = r->Err_0;
        if e is InvalidFormat {
            let line = e->InvalidFormat_line;
            let i = choose|i: int| #[trigger]
                first_bad_arg(args, i) && line@ == args[i];
            assert(parted(args[i], '=') is None);
            assert(args[i] == line@);
        }
    }
}

/// Of the processes those stay that were asked for, as they are and in the order of
/// the Procfile. Where one that was asked for is not there, nothing changes.
pub proof fn law_selection_keeps_what_is_asked_for(
    before: ProcessManager,
    after: ProcessManager,
    names: Seq<Seq<char>>,
    r: Result<(), ProcessError>,
    name: Seq<char>,
)
    requires
        selects(before, after, names, r),
    ensures
        r is Ok ==> {
            let known = before.runtime.processes@;
            let left = after.runtime.processes@;
            &&& left.contains_key(name) <==> names.contains(name)
            &&& names.contains(name) ==> known.contains_key(name) && left[name] == known[name]
        },
        r matches Err(e) ==> after == before && (e matches ProcessError::ProcessNotFound { name: n }
            && names.contains(n@) && !before.runtime.processes@.contains_key(n@)),
{
    if r is Ok {
        if names.contains(name) {
            let i = choose|i: int| 0 <= i < names.len() && names[i] == name;
            assert(before.runtime.processes@.contains_key(names[i]));
        }
        assert(names.to_set().contains(name) == names.contains(name));
    } else {
        let n = r->Err_0->ProcessNotFound_name;
        let i = choose|i: int| #[trigger]
            first_unknown(names, before.runtime.processes@, i) && n@ == names[i];
        assert(names[i] == n@);
    }
}

/// The name of a log file is its stem, the date and a number of three digits, with the
/// extension, where there is one, at the end.
pub proof fn law_rotated_name_holds_its_parts(
    stem: Seq<char>,
    ext: Seq<char>,
    date: Seq<char>,
    n: nat,
)
    requires
        n <= 999,
    ensures
        exists|digits: Seq<char>|
            {
                &&& digits.len() == 3
                &&& value_of(digits) == n
                &&& rotated_name(stem, None, date, n) == stem + seq!['-'] + date + seq!['_']
                    + #[trigger] (digits + seq![])
                &&& rotated_name(stem, Some(ext), date, n) == stem + seq!['-'] + date + seq!['_']
                    + digits + seq!['.'] + ext
            },
{
    reveal_strlit("-");
    reveal_strlit("_");
    reveal_strlit(".");
    let digits = repeated('0', missing(3, decimal(n).len())) + decimal(n);
    law_decimal_stands_for_number(n);
    assert(decimal(n).len() <= 3) by {
        reveal_with_fuel(decimal, 4);
    }
    lemma_zeros_count_nothing(missing(3, decimal(n).len()), decimal(n));
    assert(digits + seq![] =~= digits);
    assert(rotated_name(stem, None, date, n) =~= stem + seq!['-'] + date + seq!['_'] + (digits
        + seq![]));
    assert(rotated_name(stem, Some(ext), date, n) =~= stem + seq!['-'] + date + seq!['_'] + digits
        + seq!['.'] + ext);
}

proof fn lemma_zeros_count_nothing(k: nat, s: Seq<char>)
    requires
        forall|i: int| 0 <= i < s.len() ==> '0' <= #[trigger] s[i] && s[i] <= '9',
    ensures
        value_of(repeated('0', k) + s) == value_of(s),
    decreases s.len(), k,
{
    let t = repeated('0', k) + s;
    if s.len() > 0 {
        assert(t.drop_last() =~= repeated('0', k) + s.drop_last());
        assert(t.last() == s.last());
        lemma_zeros_count_nothing(k, s.drop_last());
    } else if k > 0 {
        let fewer = (k - 1) as nat;
        assert(t.drop_last() =~= repeated('0', fewer) + s);
        assert(t.last() == '0');
        lemma_zeros_count_nothing(fewer, s);
    }
}

/// The processes are told by their number and their names, all of them and in order.
pub proof fn law_processes_are_told(names: Seq<Seq<char>>, name: Seq<char>)
    ensures
        processes_text(names) == decimal(names.len()) + " · "@ + joined(names, ", "@),
        names.len() > 0 ==> joined(names.push(name), ", "@) == joined(names, ", "@) + ", "@ + name,
        joined(seq![name], ", "@) == name,
{
    assert(names.push(name).drop_last() =~= names);
}

/// The banner tells the Procfile first, the processes next, then the log file if and
/// only if there is one, and how to stop at the end.
pub proof fn law_banner_tells_the_session(
    procfile: Seq<char>,
    names: Seq<Seq<char>>,
    log: Option<Seq<char>>,
)
    ensures
        ({
            let rows = banner_rows(procfile, names, log);
            &&& rows[0] == ("procfile"@, procfile)
            &&& rows[1] == ("processes"@, processes_text(names))
            &&& rows.last() == ("controls"@, "q or Ctrl+C to stop"@)
            &&& log is None ==> rows.len() == 3
            &&& log matches Some(path) ==> rows.len() == 4 && rows[2] == ("logfile"@, path)
        }),
{
}

/// The column of values in the banner holds the title and every value, and is as wide
/// as one of these.
pub proof fn law_banner_holds_its_values(rows: Seq<(Seq<char>, Seq<char>)>, title: nat)
    ensures
        value_column(rows, title) >= title,
        forall|i: int|
            0 <= i < rows.len() ==> (#[trigger] rows[i]).1.len() <= value_column(rows, title),
        value_column(rows, title) == title || exists|i: int|
            0 <= i < rows.len() && (#[trigger] rows[i]).1.len() == value_column(rows, title),
    decreases rows.len(),
{
    if rows.len() > 0 {
        let init = rows.drop_last();
        law_banner_holds_its_values(init, title);
        assert forall|i: int| 0 <= i < rows.len() implies (#[trigger] rows[i]).1.len()
            <= value_column(rows, title) by {
            if i < init.len() {
                assert(init[i] == rows[i]);
            }
        }
        let last = rows.len() - 1;
        if value_column(rows, title) != title && rows[last].1.len() != value_column(rows, title) {
            let i = choose|i: int|
                0 <= i < init.len() && (#[trigger] init[i]).1.len() == value_column(init, title);
            assert(rows[i] == init[i]);
        }
    }
}

/// The box of the banner lines up: a row with a label of nine characters and a value
/// that fits is as long as the rule above it, and so is the title.
pub proof fn law_banner_lines_up(
    edge: char,
    left: char,
    right: char,
    label: Seq<char>,
    value: Seq<char>,
    title: Seq<char>,
    width: nat,
)
    requires
        label.len() == 9,
        value.len() <= width,
        title.len() <= width,
    ensures
        ({
            let rule = "  "@ + (seq![left] + repeated('─', 11 + width + 2) + seq![right]);
            let row = boxed(seq![edge], banner_text(label, value, width));
            let head = boxed(seq![edge], pad_right(title, 11 + width));
            &&& rule.len() == row.len() == head.len() == 17 + width
            &&& row[2] == edge && row.last() == edge && head[2] == edge && head.last() == edge
            &&& row.subrange(4, 13) == label
            &&& row.subrange(15, 15 + value.len() as int) == value
            &&& head.subrange(4, 4 + title.len() as int) == title
        }),
{
    reveal_strlit("  ");
    reveal_strlit(" ");
    let row = boxed(seq![edge], banner_text(label, value, width));
    let head = boxed(seq![edge], pad_right(title, 11 + width));
    assert(row.subrange(4, 13) =~= label);
    assert(row.subrange(15, 15 + value.len() as int) =~= value);
    assert(head.subrange(4, 4 + title.len() as int) =~= title);
}

/// A session looks every tenth of a second. Once there is an interrupt it stops all
/// processes without a word, and otherwise it ends when all have stopped by
/// themselves: it waits half a second for output, shows the summary and returns. After
/// an interrupt it marks what was left behind first, and exits with 130.
pub proof fn law_session_takes_its_course(names: nat, later: bool, stopped: bool)
    ensures
        run_next(RunPhase::Waiting, names, None, false, false).1 == RunAction::Sleep(100_000_000),
        run_next(RunPhase::Waiting, names, None, true, stopped).1 == RunAction::StopAll(
            LifecycleOptions { app_state: false, log_messages: false },
        ),
        run_next(RunPhase::Waiting, names, None, false, true).1 == RunAction::Drain(500_000_000),
        run_next(RunPhase::Stopping, names, None, later, stopped).1 == RunAction::FixOrphans,
        run_next(RunPhase::Fixing, names, None, later, stopped).1 == RunAction::Drain(500_000_000),
        run_next(RunPhase::Draining { interrupted: true }, names, None, later, stopped).1
            == RunAction::Summary,
        run_next(RunPhase::Draining { interrupted: false }, names, None, later, stopped).1
            == RunAction::Summary,
        run_next(RunPhase::Summing { interrupted: true }, names, None, later, stopped).1
            == RunAction::Pause(100_000_000),
        run_next(RunPhase::Summing { interrupted: false }, names, None, later, stopped).1
            == RunAction::Return(later),
        run_next(RunPhase::Pausing, names, None, later, stopped).1 == RunAction::Exit(130),
{
}

/// A file of variables is read on top of the arguments. One that cannot be read is told,
/// with its path and the reason.
pub proof fn law_file_comes_on_top_of_arguments(
    args: Seq<Seq<char>>,
    path: String,
    text: Result<String, String>,
    r: Result<NameMap<String>, ProcessError>,
)
    requires
        collects(args, Some((path, text)), r),
        forall|i: int| 0 <= i < args.len() ==> (#[trigger] args[i]).contains('='),
    ensures
        text matches Ok(t) ==> (r matches Ok(env) && env_view(env) == assigned(
            entries(lines(t@)),
            env_of_args(args),
        )),
        text matches Err(reason) ==> (r matches Err(ProcessError::ProcfileRead { path: p, source })
            && p@ == path@ && source == reason),
{
    assert forall|i: int| 0 <= i < args.len() implies parted(#[trigger] args[i], '=') is Some by {
        law_parted_at_first(args[i], '=');
    }
}

/// The argument that is refused is the first that assigns nothing.
pub proof fn law_first_bad_argument_is_the_first(args: Seq<Seq<char>>, i: int, j: int)
    requires
        first_bad_arg(args, i),
    ensures
        0 <= i < args.len() && !args[i].contains('='),
        0 <= j < i ==> args[j].contains('='),
{
    law_parted_at_first(args[i], '=');
    if 0 <= j < i {
        law_parted_at_first(args[j], '=');
        assert(parted(args[j], '=') is Some);
    }
}

/// The process that is missed is the first that is not there.
pub proof fn law_first_unknown_process_is_the_first(
    names: Seq<Seq<char>>,
    processes: Map<Seq<char>, ProcessInfo>,
    i: int,
    j: int,
)
    requires
        first_unknown(names, processes, i),
    ensures
        0 <= i < names.len() && !processes.contains_key(names[i]),
        0 <= j < i ==> processes.contains_key(names[j]),
{
}

/// A session has all processes of its Procfile, or those that were asked for.
pub proof fn law_session_has_what_is_asked_for(
    before: ProcessManager,
    after: ProcessManager,
    found: Seq<Seq<char>>,
    requested: Option<Vec<String>>,
    r: Result<(), ProcessError>,
)
    requires
        loads_selected(before, after, found, requested, r),
    ensures
        requested is None ==> r is Ok && loads(before, after, found),
        requested matches Some(names) ==> exists|all: ProcessManager| #[trigger]
            loads(before, all, found) && selects(all, after, texts(names@), r),
{
}

/// The boxed banner has the title on top and a row for each fact, in their order, with
/// the label in grey before the value.
pub proof fn law_banner_shows_every_row(
    lines: Seq<String>,
    title: Seq<char>,
    rows: Seq<(Seq<char>, Seq<char>)>,
    v: Seq<char>,
    i: int,
)
    requires
        is_banner(lines, title, rows, v),
        0 <= i < rows.len(),
    ensures
        lines.len() == rows.len() + 6,
        paint_of(v, "│"@, seq!['9', '0']),
        exists|cell: Seq<char>|
            {
                &&& paint_of(
                    cell,
                    pad_right(title, 11 + value_column(rows, title.len())),
                    seq!['1', ';', '3', '5'],
                )
                &&& lines[2]@ == #[trigger] boxed(v, cell)
            },
        exists|label: Seq<char>|
            {
                &&& paint_of(label, pad_right(rows[i].0, 9), seq!['9', '0'])
                &&& lines[i + 4]@ == boxed(
                    v,
                    #[trigger] banner_text(label, rows[i].1, value_column(rows, title.len())),
                )
            },
        is_rule(lines[1]@, '╭', '╮', 13 + value_column(rows, title.len())),
        is_rule(lines[3]@, '├', '┤', 13 + value_column(rows, title.len())),
        is_rule(lines[rows.len() as int + 4]@, '╰', '╯', 13 + value_column(rows, title.len())),
        lines[0]@.len() == 0 && lines[rows.len() as int + 5]@.len() == 0,
{
    let width = value_column(rows, title.len());
    let grey = foreground(Color::BrightBlack);
    reveal_strlit("");
    reveal_strlit("╭");
    reveal_strlit("╮");
    reveal_strlit("├");
    reveal_strlit("┤");
    reveal_strlit("╰");
    reveal_strlit("╯");
    assert("╭"@ =~= seq!['╭'] && "╮"@ =~= seq!['╮']);
    assert("├"@ =~= seq!['├'] && "┤"@ =~= seq!['┤']);
    assert("╰"@ =~= seq!['╰'] && "╯"@ =~= seq!['╯']);
    assert(grey =~= seq!['9', '0']);
    assert(bold_in(Color::Magenta) =~= seq!['1', ';', '3', '5']);
    assert(is_banner_row(lines[i + 4]@, v, rows[i], width));
    assert(is_banner_title(lines[2]@, v, title, 11 + width));
}

/// Whether a line is a rule of so many strokes between two corners, behind two blanks and
/// in grey where the terminal takes colours.
pub open spec fn is_rule(line: Seq<char>, left: char, right: char, strokes: nat) -> bool {
    exists|cell: Seq<char>|
        {
            &&& paint_of(cell, seq![left] + repeated('─', strokes) + seq![right], seq!['9', '0'])
            &&& line == #[trigger] ("  "@ + cell)
        }
}

/// The compact banner tells the title with the processes, the log file if and only if
/// there is one, and how to stop.
pub proof fn law_compact_banner_tells_the_session(
    lines: Seq<String>,
    title: Seq<char>,
    names: Seq<Seq<char>>,
    log: Option<Seq<char>>,
)
    requires
        is_compact_banner(lines, title, names, log),
    ensures
        log is None ==> lines.len() == 2,
        log is Some ==> lines.len() == 3,
        announced(
            lines[0]@,
            title + " · "@ + decimal(names.len()) + " · "@ + joined(names, ", "@),
            5,
            Color::Magenta,
        ),
        log matches Some(path) ==> announced(lines[1]@, "logging to "@ + path, 5, Color::Magenta),
        announced(lines.last()@, "q or Ctrl+C to stop"@, 5, Color::Magenta),
{
    assert(title + " · "@ + processes_text(names) =~= title + " · "@ + decimal(names.len())
        + " · "@ + joined(names, ", "@));
}

/// A number that is taken is followed by the next one, and a free one is used, as is the
/// last one.
pub proof fn law_taken_number_is_followed_by_next(n: u32)
    ensures
        rotation_step(n, false) == RotationStep::Use(n),
        n < 999 ==> rotation_step(n, true) == RotationStep::Try((n + 1) as u32),
        n >= 999 ==> rotation_step(n, true) == RotationStep::Use(n),
{
}

/// The user is asked about a directory if and only if it has a name and is not there, and
/// the question names it.
pub proof fn law_missing_directory_is_asked_for(dir: &str, exists: bool, r: LogDirStep)
    ensures
        asks_for_dir(Some(dir), exists, r) ==> (r is Ask <==> dir@.len() > 0 && !exists),
        asks_for_dir(None, exists, r) ==> r == LogDirStep::Ready,
        asks_for_dir(Some(dir), exists, r) ==> (r matches LogDirStep::Ask(text) ==> text@
            == "Log file directory '"@ + dir@ + "' does not exist. Create it? [y/N]: "@),
{
}

/// An answer is a yes in four spellings, whatever white space is around them.
pub proof fn law_yes_is_a_yes(a: Seq<char>, word: Seq<char>, b: Seq<char>)
    requires
        forall|i: int| 0 <= i < a.len() ==> is_white(#[trigger] a[i]),
        forall|i: int| 0 <= i < b.len() ==> is_white(#[trigger] b[i]),
        word.len() > 0 ==> !is_white(word[0]) && !is_white(word.last()),
    ensures
        agrees(a + word + b) <==> word == "y"@ || word == "Y"@ || word == "yes"@ || word == "YES"@,
{
    law_trimmed_drops_what_is_around(a, word, b);
}

/// Processes have the seconds that were given to exit, and ten where none were.
pub proof fn law_shutdown_takes_the_seconds_given(secs: u64)
    ensures
        shutdown_span(Some(secs)) == secs * 1_000_000_000,
        shutdown_span(None) == 10_000_000_000,
{
}

/// What was asked for is started, in the order in which it was, and otherwise everything
/// is.
pub proof fn law_what_was_asked_for_is_started(names: Vec<String>, all: Seq<Seq<char>>)
    ensures
        names_to_start(Some(names), all) == texts(names@),
        names_to_start(None, all) == all,
{
}

} // verus!
