//! The status of processes as text: running times, restarts, and the rows of
//! the status display.

use vstd::prelude::*;
use crate::color::{bold, bold_code, foreground, paint_of, tinted, Color};
use crate::constants::MAX_SPAN;
use crate::name_map::NameMap;
use crate::text::{decimal, missing, pad_left, padded_left, push_decimal, push_repeated, repeated};
use crate::types::{elapsed, secs, time_since, whole_secs, ProcessInfo, ProcessStatus};

verus! {

/// A time in its two largest units: hours and minutes, minutes and seconds, or
/// seconds alone.
pub open spec fn short_time(n: nat) -> Seq<char> {
    if n >= 3600 {
        decimal(n / 3600) + "h"@ + decimal((n % 3600) / 60) + "m"@
    } else if n >= 60 {
        decimal(n / 60) + "m"@ + decimal(n % 60) + "s"@
    } else {
        decimal(n) + "s"@
    }
}

/// A time in seconds, in its two largest units.
pub fn format_secs(n: u64) -> (r: String)
    ensures
        r@ == short_time(n as nat),
{
    let mut r = String::new();
    if n >= 3600 {
        push_decimal(&mut r, n / 3600);
        r.append("h");
        push_decimal(&mut r, (n % 3600) / 60);
        r.append("m");
    } else if n >= 60 {
        push_decimal(&mut r, n / 60);
        r.append("m");
        push_decimal(&mut r, n % 60);
        r.append("s");
    } else {
        push_decimal(&mut r, n);
        r.append("s");
    }
    assert(r@ =~= short_time(n as nat));
    r
}

/// How long a process has run in all its sessions, up to `now`.
pub open spec fn total_runtime(info: ProcessInfo, now: u128) -> nat {
    match info.last_restart {
        Some(start) if info.status == ProcessStatus::Running => info.cumulative_runtime as nat
            + time_since(start, now) as nat,
        _ => info.cumulative_runtime as nat,
    }
}

/// How long a process has run in all its sessions, up to `now`.
pub fn runtime_so_far(info: &ProcessInfo, now: u128) -> (r: u128)
    requires
        total_runtime(*info, now) <= MAX_SPAN,
    ensures
        r == total_runtime(*info, now),
{
    match info.last_restart {
        Some(start) if info.status == ProcessStatus::Running => info.cumulative_runtime + elapsed(
            start,
            now,
        ),
        _ => info.cumulative_runtime,
    }
}

/// The running time of a process: that of the session, with the total in
/// brackets where earlier sessions make it longer. A process that has not run
/// for a second has none.
pub open spec fn runtime_text(info: ProcessInfo, now: u128) -> Seq<char> {
    let total = total_runtime(info, now) / 1_000_000_000;
    if total == 0 {
        "N/A"@
    } else {
        match info.last_restart {
            Some(start) if info.status == ProcessStatus::Running => {
                let session = secs(time_since(start, now));
                if session != total && secs(info.cumulative_runtime) > 0 {
                    short_time(session) + " ("@ + short_time(total) + ")"@
                } else {
                    short_time(session)
                }
            },
            _ => short_time(total),
        }
    }
}

/// The running time of a process.
pub fn format_runtime(info: &ProcessInfo, now: u128) -> (r: String)
    requires
        now <= MAX_SPAN,
        total_runtime(*info, now) <= MAX_SPAN,
    ensures
        r@ == runtime_text(*info, now),
{
    let total: u64 = whole_secs(runtime_so_far(info, now));
    if total == 0 {
        return "N/A".to_owned();
    }
    match info.last_restart {
        Some(start) if info.status == ProcessStatus::Running => {
            let session: u64 = whole_secs(elapsed(start, now));
            if session != total && whole_secs(info.cumulative_runtime) > 0 {
                format_secs(session).concat(" (").concat(format_secs(total).as_str()).concat(")")
            } else {
                format_secs(session)
            }
        },
        _ => format_secs(total),
    }
}

/// How often a process was restarted, in words. Nothing is said of a process
/// that never was.
pub open spec fn restart_text(n: nat) -> Seq<char> {
    if n == 0 {
        ""@
    } else if n == 1 {
        "1 restart"@
    } else {
        decimal(n) + " restarts"@
    }
}

/// How often a process was restarted, in words.
pub fn format_restarts(n: u32) -> (r: String)
    ensures
        r@ == restart_text(n as nat),
{
    if n == 0 {
        "".to_owned()
    } else if n == 1 {
        "1 restart".to_owned()
    } else {
        let mut r = String::new();
        push_decimal(&mut r, n as u64);
        r.append(" restarts");
        assert(r@ =~= restart_text(n as nat));
        r
    }
}

/// The running time of the session, or the status of a process that has none.
pub open spec fn uptime_text(info: ProcessInfo, now: u128) -> Seq<char> {
    match info.status {
        ProcessStatus::Running => match info.last_restart {
            Some(start) => decimal(secs(time_since(start, now))) + "s"@,
            None => "N/A"@,
        },
        ProcessStatus::Stopped => "stopped"@,
        ProcessStatus::Restarting => "restarting"@,
    }
}

/// The running time of the session.
pub fn format_uptime(info: &ProcessInfo, now: u128) -> (r: String)
    requires
        now <= MAX_SPAN,
    ensures
        r@ == uptime_text(*info, now),
{
    match info.status {
        ProcessStatus::Running => match info.last_restart {
            Some(start) => {
                let mut r = String::new();
                push_decimal(&mut r, whole_secs(elapsed(start, now)));
                r.append("s");
                assert(r@ =~= uptime_text(*info, now));
                r
            },
            None => "N/A".to_owned(),
        },
        ProcessStatus::Stopped => "stopped".to_owned(),
        ProcessStatus::Restarting => "restarting".to_owned(),
    }
}

/// A row of the screen's status display, where `status` is the text of the
/// status.
pub open spec fn screen_row_of(
    name: Seq<char>,
    status: Seq<char>,
    info: ProcessInfo,
    now: u128,
) -> Seq<char> {
    pad_left(name, 12) + " | "@ + pad_left(status, 12) + " | "@ + pad_left(
        decimal(info.restart_count as nat),
        8,
    ) + " restarts | "@ + pad_left(uptime_text(info, now), 8) + " uptime"@
}

/// A row of the screen's status display.
pub fn layout_screen_row(name: &str, status: &str, info: &ProcessInfo, now: u128) -> (r: String)
    requires
        now <= MAX_SPAN,
    ensures
        r@ == screen_row_of(name@, status@, *info, now),
{
    let mut restarts = String::new();
    push_decimal(&mut restarts, info.restart_count as u64);
    assert(restarts@ =~= decimal(info.restart_count as nat));
    padded_left(name, 12).concat(" | ").concat(padded_left(status, 12).as_str()).concat(
        " | ",
    ).concat(padded_left(restarts.as_str(), 8).as_str()).concat(" restarts | ").concat(
        padded_left(format_uptime(info, now).as_str(), 8).as_str(),
    ).concat(" uptime")
}

/// Whether `r` is a row of the screen's status display, with the status in its
/// colour where the terminal takes colours.
pub open spec fn is_screen_row(
    r: Seq<char>,
    name: Seq<char>,
    info: ProcessInfo,
    now: u128,
) -> bool {
    exists|status: Seq<char>|
        #![trigger screen_row_of(name, status, info, now)]
        {
            &&& paint_of(status, info.status.word(), foreground(info.status.color()))
            &&& r == screen_row_of(name, status, info, now)
        }
}

/// The rows of the screen's status display, one for each process.
pub fn screen_rows(processes: &NameMap<ProcessInfo>, now: u128) -> (r: Vec<String>)
    requires
        now <= MAX_SPAN,
    ensures
        r.len() == processes.names().len(),
        forall|i: int|
            0 <= i < r.len() ==> is_screen_row(
                (#[trigger] r@[i])@,
                processes.names()[i],
                processes@[processes.names()[i]],
                now,
            ),
{
    let mut r: Vec<String> = Vec::new();
    let n = processes.len();
    let mut i: usize = 0;
    while i < n
        invariant
            i <= n == processes.names().len(),
            r.len() == i,
            now <= MAX_SPAN,
            forall|j: int|
                0 <= j < i ==> is_screen_row(
                    (#[trigger] r@[j])@,
                    processes.names()[j],
                    processes@[processes.names()[j]],
                    now,
                ),
        decreases n - i,
    {
        let info = processes.value_at(i);
        let status = info.status.to_string();
        r.push(layout_screen_row(processes.name_at(i).as_str(), status.as_str(), info, now));
        i += 1;
    }
    r
}

/// A row of the printed status, where `cell` shows the name and `status` the
/// status.
pub open spec fn table_row_of(
    cell: Seq<char>,
    status: Seq<char>,
    info: ProcessInfo,
    now: u128,
) -> Seq<char> {
    cell + " | "@ + status + " | "@ + pad_left(restart_text(info.restart_count as nat), 22)
        + " | "@ + pad_left(runtime_text(info, now), 12)
}

/// A row of the printed status.
pub fn layout_table_row(cell: &str, status: &str, info: &ProcessInfo, now: u128) -> (r: String)
    requires
        now <= MAX_SPAN,
        total_runtime(*info, now) <= MAX_SPAN,
    ensures
        r@ == table_row_of(cell@, status@, *info, now),
{
    cell.to_owned().concat(" | ").concat(status).concat(" | ").concat(
        padded_left(format_restarts(info.restart_count).as_str(), 22).as_str(),
    ).concat(" | ").concat(padded_left(format_runtime(info, now).as_str(), 12).as_str())
}

/// Whether `r` is a row of the printed status. The name is in cyan and the
/// status in its colour, where the terminal takes colours.
pub open spec fn is_table_row(r: Seq<char>, name: Seq<char>, info: ProcessInfo, now: u128) -> bool {
    exists|cell: Seq<char>, status: Seq<char>|
        #![trigger table_row_of(cell, status, info, now)]
        {
            &&& paint_of(cell, pad_left(name, 12), foreground(Color::Cyan))
            &&& paint_of(status, info.status.word(), foreground(info.status.color()))
            &&& r == table_row_of(cell, status, info, now)
        }
}

/// The lines of the printed status: a heading, a rule, a row for each process,
/// and a rule.
pub fn table_lines(processes: &NameMap<ProcessInfo>, now: u128) -> (r: Vec<String>)
    requires
        now <= MAX_SPAN,
        forall|name: Seq<char>| #[trigger]
            processes@.contains_key(name) ==> total_runtime(processes@[name], now) <= MAX_SPAN,
    ensures
        r.len() == processes.names().len() + 3,
        exists|heading: Seq<char>| #[trigger]
            paint_of(heading, "Process Status:"@, bold_code()) && r@[0]@ == "\n"@ + heading,
        r@[1]@ == repeated('-', 60),
        forall|i: int|
            0 <= i < processes.names().len() ==> is_table_row(
                (#[trigger] r@[i + 2])@,
                processes.names()[i],
                processes@[processes.names()[i]],
                now,
            ),
        r@[r.len() - 1]@ == repeated('-', 60) + "\n"@,
{
    let mut r: Vec<String> = Vec::new();
    let heading = bold("Process Status:");
    r.push("\n".to_owned().concat(heading.as_str()));
    let mut rule = String::new();
    push_repeated(&mut rule, '-', 60);
    assert(rule@ =~= repeated('-', 60));
    r.push(rule.clone());
    let n = processes.len();
    let mut i: usize = 0;
    let ghost first = r@[0]@;
    while i < n
        invariant
            i <= n == processes.names().len(),
            r.len() == i + 2,
            now <= MAX_SPAN,
            r@[0]@ == first,
            r@[1]@ == repeated('-', 60),
            forall|name: Seq<char>| #[trigger]
                processes@.contains_key(name) ==> total_runtime(processes@[name], now)
                    <= MAX_SPAN,
            forall|j: int|
                0 <= j < i ==> is_table_row(
                    (#[trigger] r@[j + 2])@,
                    processes.names()[j],
                    processes@[processes.names()[j]],
                    now,
                ),
        decreases n - i,
    {
        let info = processes.value_at(i);
        let cell = tinted(padded_left(processes.name_at(i).as_str(), 12).as_str(), Color::Cyan);
        let status = info.status.to_string();
        let row = layout_table_row(cell.as_str(), status.as_str(), info, now);
        let ghost before = r@;
        r.push(row);
        assert forall|j: int| 0 <= j < i + 1 implies is_table_row(
            (#[trigger] r@[j + 2])@,
            processes.names()[j],
            processes@[processes.names()[j]],
            now,
        ) by {
            if j < i {
                assert(r@[j + 2] == before[j + 2]);
            }
        }
        i += 1;
    }
    let ghost before = r@;
    rule.append("\n");
    r.push(rule);
    assert forall|j: int| 0 <= j < n implies is_table_row(
        (#[trigger] r@[j + 2])@,
        processes.names()[j],
        processes@[processes.names()[j]],
        now,
    ) by {
        assert(r@[j + 2] == before[j + 2]);
    }
    r
}

/// The two numbers of a time make it up: hours and minutes from an hour on, to
/// the minute, minutes and seconds from a minute on, and seconds below. Minutes
/// behind hours, and seconds behind minutes, stay below sixty.
pub proof fn law_short_time_adds_up(n: nat)
    ensures
        n >= 3600 ==> exists|a: nat, b: nat|
            #![trigger decimal(a), decimal(b)]
            {
                &&& short_time(n) == decimal(a) + "h"@ + decimal(b) + "m"@
                &&& b < 60
                &&& 60 * (60 * a + b) <= n < 60 * (60 * a + b + 1)
            },
        60 <= n < 3600 ==> exists|a: nat, b: nat|
            #![trigger decimal(a), decimal(b)]
            {
                &&& short_time(n) == decimal(a) + "m"@ + decimal(b) + "s"@
                &&& b < 60
                &&& 60 * a + b == n
            },
        n < 60 ==> short_time(n) == decimal(n) + "s"@,
{
    if n >= 3600 {
        let a = n / 3600;
        let b = (n % 3600) / 60;
        assert(short_time(n) == decimal(a) + "h"@ + decimal(b) + "m"@);
    } else if n >= 60 {
        let a = n / 60;
        let b = n % 60;
        assert(short_time(n) == decimal(a) + "m"@ + decimal(b) + "s"@);
    }
}

/// While a process runs, its running time grows with the clock, from what it had
/// run before the session. While it does not, its running time stands still.
pub proof fn law_runtime_grows_while_running(info: ProcessInfo, now: u128, later: u128)
    requires
        now <= later,
    ensures
        info.status != ProcessStatus::Running || info.last_restart is None ==> total_runtime(
            info,
            now,
        ) == info.cumulative_runtime,
        info.status == ProcessStatus::Running ==> (info.last_restart matches Some(start) ==> {
            &&& total_runtime(info, start) == info.cumulative_runtime
            &&& start <= now ==> total_runtime(info, later) - total_runtime(info, now) == later
                - now
            &&& now <= start ==> total_runtime(info, now) == info.cumulative_runtime
        }),
{
}

/// A running process shows the whole seconds of its session, and in brackets those
/// of all sessions where earlier ones make up a second and the two differ. Another
/// process shows the seconds of all sessions. Less than a second is not shown.
pub proof fn law_runtime_is_told_in_seconds(
    info: ProcessInfo,
    now: u128,
    session: nat,
    total: nat,
    earlier: nat,
)
    requires
        info.status == ProcessStatus::Running,
        info.last_restart is Some,
        info.last_restart->0 <= now,
        session * 1_000_000_000 <= now - info.last_restart->0 < (session + 1) * 1_000_000_000,
        total * 1_000_000_000 <= info.cumulative_runtime + now - info.last_restart->0 < (total + 1)
            * 1_000_000_000,
        earlier * 1_000_000_000 <= info.cumulative_runtime < (earlier + 1) * 1_000_000_000,
    ensures
        total == 0 ==> runtime_text(info, now) == "N/A"@,
        total > 0 && earlier == 0 ==> runtime_text(info, now) == short_time(session),
        total > 0 && earlier > 0 ==> runtime_text(info, now) == short_time(session) + " ("@
            + short_time(total) + ")"@,
{
}

/// A process that does not run shows the whole seconds of all its sessions, at any
/// time. Less than a second is not shown.
pub proof fn law_runtime_of_stopped_process_stays(info: ProcessInfo, now: u128, total: nat)
    requires
        info.status != ProcessStatus::Running,
        total * 1_000_000_000 <= info.cumulative_runtime < (total + 1) * 1_000_000_000,
    ensures
        runtime_text(info, now) == if total == 0 {
            "N/A"@
        } else {
            short_time(total)
        },
{
}

/// The number of restarts is told by its digits, with the noun in its number, and
/// none is told by nothing.
pub proof fn law_restarts_are_told(n: nat)
    ensures
        n == 0 ==> restart_text(n).len() == 0,
        n == 1 ==> restart_text(n) == decimal(n) + " restart"@,
        n > 1 ==> restart_text(n) == decimal(n) + " restarts"@,
{
    reveal_strlit("");
    reveal_strlit("1 restart");
    reveal_strlit(" restart");
    if n == 1 {
        assert(restart_text(n) =~= decimal(n) + " restart"@);
    }
}

/// A running process shows the whole seconds since its start.
pub proof fn law_uptime_is_told_in_seconds(info: ProcessInfo, now: u128, n: nat)
    requires
        info.status == ProcessStatus::Running,
        info.last_restart is Some,
        info.last_restart->0 <= now,
        n * 1_000_000_000 <= now - info.last_restart->0 < (n + 1) * 1_000_000_000,
    ensures
        uptime_text(info, now) == decimal(n) + "s"@,
{
}

/// A process that does not run shows the word for its status instead of its uptime, and
/// one that runs from nobody knows when shows none.
pub proof fn law_uptime_is_for_running_processes(info: ProcessInfo, now: u128)
    ensures
        info.status == ProcessStatus::Stopped ==> uptime_text(info, now) == "stopped"@,
        info.status == ProcessStatus::Restarting ==> uptime_text(info, now) == "restarting"@,
        info.status == ProcessStatus::Running && info.last_restart is None ==> uptime_text(
            info,
            now,
        ) == "N/A"@,
{
}

/// Each row of the screen's status display shows the name, the status, how often
/// the process was restarted and its uptime, in this order, each at the right end
/// of a cell, however long the name is.
pub proof fn law_screen_row_shows_its_process(
    name: Seq<char>,
    status: Seq<char>,
    info: ProcessInfo,
    now: u128,
)
    ensures
        exists|a: Seq<char>, b: Seq<char>, c: Seq<char>, d: Seq<char>|
            #![trigger cells_of(a, b, c, d)]
            {
                &&& screen_row_of(name, status, info, now) == a + name + " | "@ + b + status
                    + " | "@ + c + decimal(info.restart_count as nat) + " restarts | "@ + d
                    + uptime_text(info, now) + " uptime"@
                &&& cells_of(a, b, c, d)
                &&& a.len() == missing(12, name.len())
                &&& b.len() == missing(12, status.len())
                &&& c.len() == missing(8, decimal(info.restart_count as nat).len())
                &&& d.len() == missing(8, uptime_text(info, now).len())
            },
{
    let n = decimal(info.restart_count as nat);
    let u = uptime_text(info, now);
    let a = repeated(' ', missing(12, name.len()));
    let b = repeated(' ', missing(12, status.len()));
    let c = repeated(' ', missing(8, n.len()));
    let d = repeated(' ', missing(8, u.len()));
    assert(cells_of(a, b, c, d));
    assert(screen_row_of(name, status, info, now) =~= a + name + " | "@ + b + status + " | "@ + c
        + n + " restarts | "@ + d + u + " uptime"@);
}

/// Whether four texts are blanks only.
pub open spec fn cells_of(a: Seq<char>, b: Seq<char>, c: Seq<char>, d: Seq<char>) -> bool {
    &&& forall|i: int| 0 <= i < a.len() ==> #[trigger] a[i] == ' '
    &&& forall|i: int| 0 <= i < b.len() ==> #[trigger] b[i] == ' '
    &&& forall|i: int| 0 <= i < c.len() ==> #[trigger] c[i] == ' '
    &&& forall|i: int| 0 <= i < d.len() ==> #[trigger] d[i] == ' '
}

/// Each row of the printed status shows the name, the status, how often the
/// process was restarted and how long it ran, in this order.
pub proof fn law_table_row_shows_its_process(
    cell: Seq<char>,
    status: Seq<char>,
    info: ProcessInfo,
    now: u128,
)
    ensures
        exists|a: Seq<char>, b: Seq<char>|
            #![trigger cells_of(a, b, a, b)]
            {
                &&& table_row_of(cell, status, info, now) == cell + " | "@ + status + " | "@ + a
                    + restart_text(info.restart_count as nat) + " | "@ + b + runtime_text(info, now)
                &&& cells_of(a, b, a, b)
                &&& a.len() == missing(22, restart_text(info.restart_count as nat).len())
                &&& b.len() == missing(12, runtime_text(info, now).len())
            },
{
    let n = restart_text(info.restart_count as nat);
    let u = runtime_text(info, now);
    let a = repeated(' ', missing(22, n.len()));
    let b = repeated(' ', missing(12, u.len()));
    assert(cells_of(a, b, a, b));
    assert(table_row_of(cell, status, info, now) =~= cell + " | "@ + status + " | "@ + a + n
        + " | "@ + b + u);
}

/// The rows show the status by its word, in green where the process runs, yellow where
/// it has stopped and blue in between, wherever the terminal takes colours. The printed
/// row shows the name in cyan.
pub proof fn law_rows_show_status_in_color(
    row: Seq<char>,
    line: Seq<char>,
    name: Seq<char>,
    info: ProcessInfo,
    now: u128,
)
    requires
        is_screen_row(row, name, info, now),
        is_table_row(line, name, info, now),
    ensures
        ({
            let (word, code) = if info.status == ProcessStatus::Running {
                ("RUNNING"@, seq!['3', '2'])
            } else if info.status == ProcessStatus::Stopped {
                ("STOPPED"@, seq!['3', '3'])
            } else {
                ("RESTARTING"@, seq!['3', '4'])
            };
            &&& exists|status: Seq<char>|
                paint_of(status, word, code) && row == #[trigger] screen_row_of(
                    name,
                    status,
                    info,
                    now,
                )
            &&& exists|cell: Seq<char>, status: Seq<char>|
                {
                    &&& paint_of(cell, pad_left(name, 12), seq!['3', '6'])
                    &&& paint_of(status, word, code)
                    &&& line == #[trigger] table_row_of(cell, status, info, now)
                }
        }),
{
    let code = foreground(info.status.color());
    let status = choose|status: Seq<char>|
        #![trigger screen_row_of(name, status, info, now)]
        paint_of(status, info.status.word(), code) && row == screen_row_of(name, status, info, now);
    assert(paint_of(status, info.status.word(), code));
    let (cell, word) = choose|cell: Seq<char>, word: Seq<char>|
        #![trigger table_row_of(cell, word, info, now)]
        paint_of(cell, pad_left(name, 12), foreground(Color::Cyan)) && paint_of(
            word,
            info.status.word(),
            code,
        ) && line == table_row_of(cell, word, info, now);
    assert(paint_of(cell, pad_left(name, 12), foreground(Color::Cyan)));
    assert(paint_of(word, info.status.word(), code));
}

} // verus!
