//! A session from its command line to its end: arguments, log files, the
//! startup banner, and the wait for the processes.

use vstd::prelude::*;
use crate::color::{bold_in, foreground, paint_of, tinted, tinted_bold, Color};
use crate::constants::{GRACEFUL_SHUTDOWN_TIMEOUT, NANOS_PER_SEC};
use crate::name_map::{kept, NameMap};
use crate::output::{announced, bar, format_gaffa_message};
use crate::platform::Host;
use crate::process_manager::{begins_start, loads, Action, LifecycleOptions, ProcessManager, Step};
use crate::procfile::{all_define, assigned, entries, env_view, first_bad, parse_env_file, scanned};
use crate::shell::{is_shell_of, resolved_program, Shell};
use crate::summary::push_segment;
use crate::text::{
    char_count, decimal, digit, join, joined, lines, missing, pad_right, padded_right, parted,
    push_decimal, push_repeated, repeated, same_text, split_once, texts, trim, trimmed,
};
use crate::types::{ProcessError, ProcessInfo};

verus! {

/// How long the wait for the processes sleeps between two looks.
pub const WAIT_PAUSE: u128 = 100_000_000;

/// How long the output of the processes has to come to its end.
pub const DRAIN_TIME: u128 = 500_000_000;

/// How long an interrupted session waits before it ends.
pub const EXIT_PAUSE: u128 = 100_000_000;

/// The exit code of a session that was interrupted.
pub const EXIT_INTERRUPTED: i32 = 130;

/// The highest number of a log file of one day.
pub const MAX_ROTATION: u32 = 999;

/// The assignments among the arguments, each with `=` in it.
pub open spec fn env_of_args(args: Seq<Seq<char>>) -> Map<Seq<char>, Seq<char>>
    decreases args.len(),
{
    if args.len() == 0 {
        Map::empty()
    } else {
        let before = env_of_args(args.drop_last());
        match parted(args.last(), '=') {
            Some((key, value)) => before.insert(key, value),
            None => before,
        }
    }
}

/// Whether the first argument without `=` is argument `i`.
pub open spec fn first_bad_arg(args: Seq<Seq<char>>, i: int) -> bool {
    &&& 0 <= i < args.len()
    &&& parted(args[i], '=') is None
    &&& forall|j: int| 0 <= j < i ==> parted(#[trigger] args[j], '=') is Some
}

/// The environment variables that the arguments assign. One that is assigned
/// again has its last value.
pub fn parse_env_args(args: &Vec<String>) -> (r: Result<NameMap<String>, ProcessError>)
    ensures
        match r {
            Ok(env) => {
                &&& forall|i: int|
                    0 <= i < args.len() ==> parted((#[trigger] args@[i])@, '=') is Some
                &&& env_view(env) == env_of_args(texts(args@))
            },
            Err(ProcessError::InvalidFormat { line }) => exists|i: int| #[trigger]
                first_bad_arg(texts(args@), i) && line@ == args@[i]@,
            Err(_) => false,
        },
{
    let ghost all = texts(args@);
    let mut env: NameMap<String> = NameMap::new();
    let mut i: usize = 0;
    assert(all.take(0) =~= seq![]);
    assert(env_view(env) =~= Map::empty());
    while i < args.len()
        invariant
            i <= args.len(),
            all == texts(args@),
            env_view(env) == env_of_args(all.take(i as int)),
            forall|j: int| 0 <= j < i ==> parted((#[trigger] args@[j])@, '=') is Some,
        decreases args.len() - i,
    {
        assert(all.take(i + 1).drop_last() =~= all.take(i as int));
        assert(all[i as int] == args@[i as int]@);
        match split_once(args[i].as_str(), '=') {
            Some((key, value)) => {
                let ghost before = env_view(env);
                let ghost k = key@;
                let ghost v = value@;
                env.insert(key, value);
                assert(env_view(env) =~= before.insert(k, v));
            },
            None => {
                proof {
                    assert forall|j: int| 0 <= j < i implies parted(#[trigger] all[j], '=') is Some by {
                        assert(all[j] == args@[j]@);
                    }
                    assert(first_bad_arg(all, i as int));
                }
                return Err(ProcessError::InvalidFormat { line: args[i].clone() });
            },
        }
        i += 1;
    }
    assert(all.take(i as int) =~= all);
    Ok(env)
}

/// What is said of an argument that assigns nothing.
pub fn env_arg_messages(arg: &str) -> (r: (String, String))
    ensures
        r.0@ == "Invalid environment variable format: "@ + arg@,
        r.1@ == "Expected format: KEY=VALUE"@,
{
    (
        "Invalid environment variable format: ".to_owned().concat(arg),
        "Expected format: KEY=VALUE".to_owned(),
    )
}

/// What the plain console says of such an argument, and its error.
pub fn console_env_error(arg: &str) -> (r: (String, ProcessError))
    ensures
        r.0@ == "Invalid env format: "@ + arg@ + " (expected KEY=VALUE)"@,
        r.1 matches ProcessError::InputRead(e) && e@ == "Invalid env format: "@ + arg@,
{
    let text = "Invalid env format: ".to_owned().concat(arg);
    (text.clone().concat(" (expected KEY=VALUE)"), ProcessError::InputRead(text))
}

/// A number of seconds as a span of time.
pub fn span_of_secs(secs: u64) -> (r: u128)
    ensures
        r == secs * NANOS_PER_SEC,
{
    secs as u128 * NANOS_PER_SEC
}

/// The processes that a session starts: those that were asked for, or all.
pub open spec fn names_to_start(
    requested: Option<Vec<String>>,
    all: Seq<Seq<char>>,
) -> Seq<Seq<char>> {
    match requested {
        Some(names) => texts(names@),
        None => all,
    }
}

/// Whether the first of the names that is not a process is name `i`.
pub open spec fn first_unknown(
    names: Seq<Seq<char>>,
    processes: Map<Seq<char>, ProcessInfo>,
    i: int,
) -> bool {
    &&& 0 <= i < names.len()
    &&& !processes.contains_key(names[i])
    &&& forall|j: int| 0 <= j < i ==> processes.contains_key(#[trigger] names[j])
}

/// What a request for the named processes comes to: they are kept, or the first
/// that is not known is reported.
pub open spec fn selects(
    before: ProcessManager,
    after: ProcessManager,
    names: Seq<Seq<char>>,
    r: Result<(), ProcessError>,
) -> bool {
    let known = before.runtime.processes;
    match r {
        Ok(_) => {
            &&& forall|i: int| 0 <= i < names.len() ==> known@.contains_key(#[trigger] names[i])
            &&& after.runtime.processes@ == known@.restrict(names.to_set())
            &&& after.runtime.processes.names() == kept(known.names(), names)
        },
        Err(ProcessError::ProcessNotFound { name }) => {
            &&& after == before
            &&& exists|i: int| #[trigger] first_unknown(names, known@, i) && name@ == names[i]
        },
        Err(_) => false,
    }
}

impl ProcessManager {
    /// Keeps the requested processes, if any are. Where one is not known,
    /// nothing is changed.
    pub fn select_processes(&mut self, requested: &Option<Vec<String>>) -> (r: Result<
        (),
        ProcessError,
    >)
        ensures
            final(self).config == old(self).config,
            final(self).runtime.actors == old(self).runtime.actors,
            final(self).runtime.output_handles == old(self).runtime.output_handles,
            match *requested {
                None => r is Ok && *final(self) == *old(self),
                Some(names) => selects(*old(self), *final(self), texts(names@), r),
            },
    {
        if let Some(names) = requested {
            let mut i: usize = 0;
            while i < names.len()
                invariant
                    i <= names.len(),
                    *self == *old(self),
                    *requested == Some(*names),
                    forall|j: int|
                        0 <= j < i ==> self.runtime.processes@.contains_key(
                            (#[trigger] names@[j])@,
                        ),
                decreases names.len() - i,
            {
                if !self.runtime.processes.contains_key(names[i].as_str()) {
                    assert(first_unknown(texts(names@), self.runtime.processes@, i as int));
                    return Err(ProcessError::ProcessNotFound { name: names[i].clone() });
                }
                i += 1;
            }
            assert forall|j: int| 0 <= j < texts(names@).len() implies self.runtime.processes@.contains_key(
                #[trigger] texts(names@)[j],
            ) by {
                assert(texts(names@)[j] == names@[j]@);
            }
            self.retain_processes(names);
        }
        Ok(())
    }

    /// The names of the processes that a session starts: those that were
    /// requested, or all.
    pub fn startup_names(&self, requested: &Option<Vec<String>>) -> (r: Vec<String>)
        ensures
            texts(r@) == names_to_start(*requested, self.runtime.processes.names()),
    {
        match requested {
            Some(names) => {
                let mut r: Vec<String> = Vec::new();
                let mut i: usize = 0;
                while i < names.len()
                    invariant
                        i <= names.len(),
                        r.len() == i,
                        forall|j: int| 0 <= j < i ==> (#[trigger] r@[j])@ == names@[j]@,
                    decreases names.len() - i,
                {
                    r.push(names[i].clone());
                    i += 1;
                }
                assert(texts(r@) =~= texts(names@));
                r
            },
            None => self.process_names(),
        }
    }
}

/// The environment that a session asks for: the assignments among its
/// arguments, and then those of its file, if there is one. `env_file` is the
/// path of the file with its text, or with the reason why it could not be read.
pub fn collect_environment(
    env_args: &Vec<String>,
    env_file: Option<(String, Result<String, String>)>,
) -> (r: Result<NameMap<String>, ProcessError>)
    ensures
        collects(texts(env_args@), env_file, r),
{
    let mut env = match parse_env_args(env_args) {
        Ok(env) => env,
        Err(e) => {
            return Err(e);
        },
    };
    proof {
        assert forall|i: int| 0 <= i < env_args.len() implies parted(
            #[trigger] texts(env_args@)[i],
            '=',
        ) is Some by {
            assert(parted(env_args@[i]@, '=') is Some);
        }
    }
    if let Some((path, contents)) = env_file {
        match parse_env_file(path.as_str(), contents, &mut env) {
            Ok(_) => {},
            Err(e) => {
                return Err(e);
            },
        }
    }
    Ok(env)
}

/// What the environment of a session comes to. A variable of the file wins over
/// an argument, and an argument without `=` is reported before the file is
/// looked at.
pub open spec fn collects(
    env_args: Seq<Seq<char>>,
    env_file: Option<(String, Result<String, String>)>,
    r: Result<NameMap<String>, ProcessError>,
) -> bool {
    let all_assign = forall|i: int|
        0 <= i < env_args.len() ==> parted(#[trigger] env_args[i], '=') is Some;
    match r {
        Ok(env) => all_assign && match env_file {
            None => env_view(env) == env_of_args(env_args),
            Some((_, Ok(text))) => env_view(env) == assigned(
                entries(lines(text@)),
                env_of_args(env_args),
            ),
            Some((_, Err(_))) => false,
        },
        Err(ProcessError::InvalidFormat { line }) => exists|i: int| #[trigger]
            first_bad_arg(env_args, i) && line@ == env_args[i],
        Err(ProcessError::ProcfileRead { path, source }) => all_assign && match env_file {
            Some((p, Err(e))) => path@ == p@ && source == e,
            _ => false,
        },
        Err(_) => false,
    }
}

/// How long processes have to exit, by the seconds that were given, if any were.
pub open spec fn shutdown_span(shutdown_secs: Option<u64>) -> u128 {
    match shutdown_secs {
        Some(secs) => (secs * NANOS_PER_SEC) as u128,
        None => GRACEFUL_SHUTDOWN_TIMEOUT,
    }
}

/// A manager for a session: with its environment, the time that children have to
/// exit, and its shell. `shutdown_secs` is that time in seconds, if it was given.
pub fn configure_manager(
    host: Host,
    env_args: &Vec<String>,
    env_file: Option<(String, Result<String, String>)>,
    shutdown_secs: Option<u64>,
    shell: Option<&str>,
    gaffa_shell: Option<&str>,
) -> (r: Result<ProcessManager, ProcessError>)
    ensures
        match r {
            Ok(m) => {
                &&& collects(texts(env_args@), env_file, Ok(m.config.env_vars))
                &&& m.config.shutdown_timeout == shutdown_span(shutdown_secs)
                &&& is_shell_of(m.config.shell, resolved_program(shell, gaffa_shell, host))
                &&& m.config.host == host
                &&& !m.config.log_file
                &&& m.config.colors@ == Map::<Seq<char>, Color>::empty()
                &&& m.config.colors.names().len() == 0
                &&& m.config.max_name_length == 0
                &&& m.runtime.processes.names().len() == 0
                &&& m.runtime.actors.names().len() == 0
                &&& m.runtime.output_handles.names().len() == 0
            },
            Err(e) => collects(texts(env_args@), env_file, Err(e)),
        },
{
    match collect_environment(env_args, env_file) {
        Ok(env) => {
            let mut manager = ProcessManager::new(host);
            if let Some(secs) = shutdown_secs {
                manager.set_shutdown_timeout(span_of_secs(secs));
            }
            manager.set_shell(Shell::resolve(shell, gaffa_shell, host));
            manager.set_environment_variables(env);
            Ok(manager)
        },
        Err(e) => Err(e),
    }
}

impl ProcessManager {
    /// Loads a Procfile, and keeps the requested processes, if any are.
    pub fn load_selected(
        &mut self,
        procfile_path: &str,
        content: Result<String, String>,
        requested: &Option<Vec<String>>,
    ) -> (r: Result<(), ProcessError>)
        ensures
            content matches Err(source) ==> {
                &&& *final(self) == *old(self)
                &&& r matches Err(ProcessError::ProcfileRead { path, source: s }) && path@
                    == procfile_path@ && s == source
            },
            content matches Ok(text) ==> scanned(entries(lines(text@))),
            content matches Ok(text) ==> {
                let found = entries(lines(text@));
                if found.len() > 0 && all_define(found) {
                    loads_selected(*old(self), *final(self), found, *requested, r)
                } else {
                    *final(self) == *old(self) && match r {
                        Err(ProcessError::NoProcesses) => found.len() == 0,
                        Err(ProcessError::InvalidFormat { line }) => exists|i: int| #[trigger]
                            first_bad(found, i) && line@ == found[i],
                        _ => false,
                    }
                }
            },
    {
        match self.load_procfile(procfile_path, content) {
            Ok(_) => {},
            Err(e) => {
                return Err(e);
            },
        }
        let ghost mid = *self;
        let r = self.select_processes(requested);
        proof {
            if content is Ok {
                assert(loads(*old(self), mid, entries(lines(content->Ok_0@))));
            }
        }
        r
    }
}

/// What the load of a valid Procfile comes to, with the requested processes.
pub open spec fn loads_selected(
    before: ProcessManager,
    after: ProcessManager,
    found: Seq<Seq<char>>,
    requested: Option<Vec<String>>,
    r: Result<(), ProcessError>,
) -> bool {
    exists|mid: ProcessManager| #[trigger]
        loads(before, mid, found) && match requested {
            None => r is Ok && after == mid,
            Some(names) => selects(mid, after, texts(names@), r),
        }
}

/// What is said of a process that could not be started.
pub fn start_failure_message(name: &str, error: &ProcessError) -> (r: String)
    ensures
        r@ == "Failed to start process '"@ + name@ + "': "@ + error.message(),
{
    "Failed to start process '".to_owned().concat(name).concat("': ").concat(
        error.to_string().as_str(),
    )
}

/// The name of a log file of a day: the stem, the day, the number with three
/// digits, and the extension.
pub open spec fn rotated_name(
    stem: Seq<char>,
    ext: Option<Seq<char>>,
    date: Seq<char>,
    n: nat,
) -> Seq<char> {
    let base = stem + "-"@ + date + "_"@ + repeated('0', missing(3, decimal(n).len())) + decimal(n);
    match ext {
        Some(e) => base + "."@ + e,
        None => base,
    }
}

/// The name of a log file of a day. `stem` and `ext` are those of the log file
/// that was asked for; without a stem it is named after gaffa.
pub fn rotated_log_name(stem: Option<&str>, ext: Option<&str>, date: &str, n: u32) -> (r: String)
    ensures
        r@ == rotated_name(
            match stem {
                Some(s) => s@,
                None => "gaffa"@,
            },
            match ext {
                Some(e) => Some(e@),
                None => None,
            },
            date@,
            n as nat,
        ),
{
    let mut digits = String::new();
    push_decimal(&mut digits, n as u64);
    assert(digits@ =~= decimal(n as nat));
    let len: usize = char_count(digits.as_str());
    let gap: usize = if len < 3 {
        3 - len
    } else {
        0
    };
    let mut r = match stem {
        Some(s) => s.to_owned(),
        None => "gaffa".to_owned(),
    };
    r.append("-");
    r.append(date);
    r.append("_");
    push_repeated(&mut r, '0', gap);
    r.append(digits.as_str());
    if let Some(e) = ext {
        r.append(".");
        r.append(e);
    }
    r
}

/// The three digits of a number below a thousand.
proof fn lemma_three_digits(n: nat)
    requires
        n < 1000,
    ensures
        repeated('0', missing(3, decimal(n).len())) + decimal(n) == seq![
            digit(n / 100),
            digit((n / 10) % 10),
            digit(n % 10),
        ],
{
    reveal_with_fuel(decimal, 3);
    let all = seq![digit(n / 100), digit((n / 10) % 10), digit(n % 10)];
    assert(digit(0) == '0');
    if n < 10 {
        assert(decimal(n) =~= seq![digit(n)]);
    } else if n < 100 {
        assert(decimal(n) =~= seq![digit(n / 10), digit(n % 10)]);
    } else {
        assert((n / 10) / 10 == n / 100);
        assert(decimal(n) =~= all);
    }
    assert(repeated('0', missing(3, decimal(n).len())) + decimal(n) =~= all);
}

/// No session overwrites the log of another one of the same day: different
/// numbers make different names.
pub proof fn law_rotated_names_differ(
    stem: Seq<char>,
    ext: Option<Seq<char>>,
    date: Seq<char>,
    m: nat,
    n: nat,
)
    requires
        m <= MAX_ROTATION,
        n <= MAX_ROTATION,
        m != n,
    ensures
        rotated_name(stem, ext, date, m) != rotated_name(stem, ext, date, n),
{
    lemma_three_digits(m);
    lemma_three_digits(n);
    let a = rotated_name(stem, ext, date, m);
    let b = rotated_name(stem, ext, date, n);
    let head = stem + "-"@ + date + "_"@;
    let k = head.len() as int;
    let x = seq![digit(m / 100), digit((m / 10) % 10), digit(m % 10)];
    let y = seq![digit(n / 100), digit((n / 10) % 10), digit(n % 10)];
    assert(head + repeated('0', missing(3, decimal(m).len())) + decimal(m) =~= head + x);
    assert(head + repeated('0', missing(3, decimal(n).len())) + decimal(n) =~= head + y);
    if a == b {
        assert(a[k] == x[0] && a[k + 1] == x[1] && a[k + 2] == x[2]);
        assert(b[k] == y[0] && b[k + 1] == y[1] && b[k + 2] == y[2]);
        assert(m / 100 == n / 100);
        assert((m / 10) % 10 == (n / 10) % 10);
        assert(m % 10 == n % 10);
    }
}

/// What follows on the look whether a log file is there.
#[derive(Clone, Copy, Debug, PartialEq, Eq, Structural)]
pub enum RotationStep {
    /// Look for the file with this number.
    Try(u32),
    /// Use the file with this number.
    Use(u32),
}

/// What follows on the look whether the log file with number `n` is there: the
/// next number, or this one. After the last number there is none, and that file
/// is used though it is there.
pub open spec fn rotation_step(n: u32, exists: bool) -> RotationStep {
    if exists && n < MAX_ROTATION {
        RotationStep::Try((n + 1) as u32)
    } else {
        RotationStep::Use(n)
    }
}

/// What follows on the look whether the log file with number `n` is there.
pub fn rotate_log_path(n: u32, exists: bool) -> (r: RotationStep)
    ensures
        r == rotation_step(n, exists),
{
    if exists && n < MAX_ROTATION {
        RotationStep::Try(n + 1)
    } else {
        RotationStep::Use(n)
    }
}

/// The number that comes out where the looks begin with `n`, and `taken` says
/// which files are there.
pub open spec fn rotation_from(n: u32, taken: spec_fn(u32) -> bool) -> u32
    decreases MAX_ROTATION - n,
{
    match rotation_step(n, taken(n)) {
        RotationStep::Try(m) => if n < m <= MAX_ROTATION {
            rotation_from(m, taken)
        } else {
            n
        },
        RotationStep::Use(m) => m,
    }
}

/// A session gets the first number that no file has. Where all numbers are
/// taken, it gets the last one.
pub proof fn law_rotation_takes_first_free(n: u32, taken: spec_fn(u32) -> bool)
    requires
        1 <= n <= MAX_ROTATION,
    ensures
        n <= rotation_from(n, taken) <= MAX_ROTATION,
        forall|i: u32| n <= i < rotation_from(n, taken) ==> #[trigger] taken(i),
        taken(rotation_from(n, taken)) ==> rotation_from(n, taken) == 999,
    decreases MAX_ROTATION - n,
{
    if taken(n) && n < MAX_ROTATION {
        law_rotation_takes_first_free((n + 1) as u32, taken);
    }
}

/// What has to happen before a log file can be written.
#[derive(Debug)]
pub enum LogDirStep {
    /// Nothing.
    Ready,
    /// The user is to be asked this.
    Ask(String),
}

/// Whether `r` is what has to happen before a log file in the directory `parent` can
/// be written: a question where there is such a directory to be and it is not there.
pub open spec fn asks_for_dir(parent: Option<&str>, exists: bool, r: LogDirStep) -> bool {
    match parent {
        Some(dir) if dir@.len() > 0 && !exists => r matches LogDirStep::Ask(text) && text@
            == "Log file directory '"@ + dir@ + "' does not exist. Create it? [y/N]: "@,
        _ => r == LogDirStep::Ready,
    }
}

/// What has to happen before a log file in the directory `parent` can be
/// written. `exists` says whether the directory is there.
pub fn ensure_log_parent_dir(parent: Option<&str>, exists: bool) -> (r: LogDirStep)
    ensures
        asks_for_dir(parent, exists, r),
{
    match parent {
        Some(dir) if char_count(dir) > 0 && !exists => LogDirStep::Ask(
            "Log file directory '".to_owned().concat(dir).concat(
                "' does not exist. Create it? [y/N]: ",
            ),
        ),
        _ => LogDirStep::Ready,
    }
}

/// Whether an answer of the user is a yes.
pub open spec fn agrees(answer: Seq<char>) -> bool {
    trimmed(answer) == "y"@ || trimmed(answer) == "Y"@ || trimmed(answer) == "yes"@ || trimmed(
        answer,
    ) == "YES"@
}

/// Whether the directory of a log file is to be created, by the answer of the
/// user. Where it is not, there is an error.
pub fn log_dir_answer(path: &str, parent: &str, answer: &str) -> (r: Result<(), ProcessError>)
    ensures
        match r {
            Ok(_) => agrees(answer@),
            Err(ProcessError::ProcfileRead { path: p, source }) => !agrees(answer@) && p@ == path@
                && source@ == "parent directory '"@ + parent@ + "' does not exist"@,
            Err(_) => false,
        },
{
    let text = trim(answer);
    let t = text.as_str();
    if same_text(t, "y") || same_text(t, "Y") || same_text(t, "yes") || same_text(t, "YES") {
        Ok(())
    } else {
        Err(
            ProcessError::ProcfileRead {
                path: path.to_owned(),
                source: "parent directory '".to_owned().concat(parent).concat("' does not exist"),
            },
        )
    }
}

/// The message on a log file that is not where it was asked for, with both
/// paths.
pub fn announce_log_rotation(requested: Option<&str>, rotated: Option<&str>) -> (r: Option<String>)
    ensures
        match (requested, rotated) {
            (Some(req), Some(rot)) if req@ != rot@ => r matches Some(line) && announced(
                line@,
                "rotated "@ + req@ + " → "@ + rot@,
                5,
                Color::Magenta,
            ),
            _ => r is None,
        },
{
    match (requested, rotated) {
        (Some(req), Some(rot)) => if same_text(req, rot) {
            None
        } else {
            let text = "rotated ".to_owned().concat(req).concat(" → ").concat(rot);
            Some(format_gaffa_message(text.as_str(), 5))
        },
        _ => None,
    }
}

/// What the banner says of the processes: how many, and which.
pub open spec fn processes_text(names: Seq<Seq<char>>) -> Seq<char> {
    decimal(names.len()) + " · "@ + joined(names, ", "@)
}

/// The labels and values of the banner.
pub open spec fn banner_rows(
    procfile: Seq<char>,
    names: Seq<Seq<char>>,
    log: Option<Seq<char>>,
) -> Seq<(Seq<char>, Seq<char>)> {
    let head = seq![("procfile"@, procfile), ("processes"@, processes_text(names))];
    let middle = match log {
        Some(p) => head.push(("logfile"@, p)),
        None => head,
    };
    middle.push(("controls"@, "q or Ctrl+C to stop"@))
}

/// The width of the column of values: that of the longest value, or of the
/// title.
pub open spec fn value_column(rows: Seq<(Seq<char>, Seq<char>)>, title: nat) -> nat
    decreases rows.len(),
{
    if rows.len() == 0 {
        title
    } else {
        let w = value_column(rows.drop_last(), title);
        if rows.last().1.len() > w {
            rows.last().1.len()
        } else {
            w
        }
    }
}

/// The views of labels and values.
pub open spec fn row_views(rows: Seq<(String, String)>) -> Seq<(Seq<char>, Seq<char>)> {
    Seq::new(rows.len(), |i: int| (rows[i].0@, rows[i].1@))
}

/// `text` between the edges of the banner, where `v` is the edge.
pub open spec fn boxed(v: Seq<char>, text: Seq<char>) -> Seq<char> {
    "  "@ + v + " "@ + text + " "@ + v
}

/// `text` between the edges of the banner, where `v` is the edge.
pub fn layout_boxed(v: &str, text: &str) -> (r: String)
    ensures
        r@ == boxed(v@, text@),
{
    "  ".to_owned().concat(v).concat(" ").concat(text).concat(" ").concat(v)
}

/// A row of the banner: the label, and the value behind it. The column of
/// labels has nine characters, which is the length of the longest.
pub open spec fn banner_text(label: Seq<char>, value: Seq<char>, width: nat) -> Seq<char> {
    label + "  "@ + pad_right(value, width)
}

/// A row of the banner without its edges, where `label` shows the label.
pub fn layout_banner_text(label: &str, value: &str, width: usize) -> (r: String)
    ensures
        r@ == banner_text(label@, value@, width as nat),
{
    label.to_owned().concat("  ").concat(padded_right(value, width).as_str())
}

/// Whether `r` is a row of the banner, with the label in grey where the terminal
/// takes colours.
pub open spec fn is_banner_row(
    r: Seq<char>,
    v: Seq<char>,
    row: (Seq<char>, Seq<char>),
    width: nat,
) -> bool {
    exists|label: Seq<char>|
        #![trigger banner_text(label, row.1, width)]
        {
            &&& paint_of(label, pad_right(row.0, 9), foreground(Color::BrightBlack))
            &&& r == boxed(v, banner_text(label, row.1, width))
        }
}

/// Whether `r` is a rule of the banner in grey, where the terminal takes
/// colours.
pub open spec fn is_banner_rule(r: Seq<char>, left: Seq<char>, right: Seq<char>, inner: nat) -> bool {
    crate::summary::is_indented(
        r,
        left + repeated('─', inner + 2) + right,
        foreground(Color::BrightBlack),
    )
}

/// Whether `r` is the title of the banner, in bold magenta where the terminal
/// takes colours.
pub open spec fn is_banner_title(r: Seq<char>, v: Seq<char>, title: Seq<char>, inner: nat) -> bool {
    exists|cell: Seq<char>|
        #![trigger boxed(v, cell)]
        paint_of(cell, pad_right(title, inner), bold_in(Color::Magenta)) && r == boxed(v, cell)
}

/// Whether `lines` is the banner in its box, where `v` is the edge.
pub open spec fn is_banner(
    lines: Seq<String>,
    title: Seq<char>,
    rows: Seq<(Seq<char>, Seq<char>)>,
    v: Seq<char>,
) -> bool {
    let width = value_column(rows, title.len());
    let inner = 11 + width;
    &&& paint_of(v, bar(), foreground(Color::BrightBlack))
    &&& lines.len() == rows.len() + 6
    &&& lines[0]@ == ""@
    &&& is_banner_rule(lines[1]@, "╭"@, "╮"@, inner)
    &&& is_banner_title(lines[2]@, v, title, inner)
    &&& is_banner_rule(lines[3]@, "├"@, "┤"@, inner)
    &&& forall|i: int|
        0 <= i < rows.len() ==> is_banner_row((#[trigger] lines[i + 4])@, v, rows[i], width)
    &&& is_banner_rule(lines[rows.len() as int + 4]@, "╰"@, "╯"@, inner)
    &&& lines[rows.len() as int + 5]@ == ""@
}

/// Whether `lines` is the banner in its box.
pub open spec fn is_boxed_banner(
    lines: Seq<String>,
    title: Seq<char>,
    rows: Seq<(Seq<char>, Seq<char>)>,
) -> bool {
    exists|v: Seq<char>| is_banner(lines, title, rows, v)
}

/// Whether `lines` is the banner without its box: messages of gaffa, one for
/// the title and the processes, one for the log file if there is one, and one
/// for the controls.
pub open spec fn is_compact_banner(
    lines: Seq<String>,
    title: Seq<char>,
    names: Seq<Seq<char>>,
    log: Option<Seq<char>>,
) -> bool {
    let n: int = if log is Some {
        3
    } else {
        2
    };
    &&& lines.len() == n
    &&& announced(lines[0]@, title + " · "@ + processes_text(names), 5, Color::Magenta)
    &&& log matches Some(p) ==> announced(lines[1]@, "logging to "@ + p, 5, Color::Magenta)
    &&& announced(lines[n - 1]@, "q or Ctrl+C to stop"@, 5, Color::Magenta)
}

fn banner_rule(left: &str, right: &str, inner: usize) -> (r: String)
    ensures
        is_banner_rule(r@, left@, right@, inner as nat),
{
    let mut rule = left.to_owned();
    push_segment(&mut rule, inner);
    rule.append(right);
    let cell = tinted(rule.as_str(), Color::BrightBlack);
    let r = "  ".to_owned().concat(cell.as_str());
    assert(paint_of(cell@, rule@, foreground(Color::BrightBlack)));
    r
}

fn rows_for_banner(procfile_path: &str, procs: &str, log: Option<&str>) -> (r: Vec<(String, String)>)
    ensures
        row_views(r@) == ({
            let head = seq![("procfile"@, procfile_path@), ("processes"@, procs@)];
            let middle = match log {
                Some(p) => head.push(("logfile"@, p@)),
                None => head,
            };
            middle.push(("controls"@, "q or Ctrl+C to stop"@))
        }),
{
    let mut rows: Vec<(String, String)> = Vec::new();
    rows.push(("procfile".to_owned(), procfile_path.to_owned()));
    rows.push(("processes".to_owned(), procs.to_owned()));
    if let Some(p) = log {
        rows.push(("logfile".to_owned(), p.to_owned()));
    }
    rows.push(("controls".to_owned(), "q or Ctrl+C to stop".to_owned()));
    proof {
        let head = seq![("procfile"@, procfile_path@), ("processes"@, procs@)];
        let middle = match log {
            Some(p) => head.push(("logfile"@, p@)),
            None => head,
        };
        assert(row_views(rows@) =~= middle.push(("controls"@, "q or Ctrl+C to stop"@)));
    }
    rows
}

fn width_of_values(rows: &Vec<(String, String)>, title: &str) -> (r: usize)
    ensures
        r == value_column(row_views(rows@), title@.len()),
{
    let ghost all = row_views(rows@);
    let mut width: usize = char_count(title);
    let mut i: usize = 0;
    assert(all.take(0) =~= seq![]);
    while i < rows.len()
        invariant
            i <= rows.len(),
            all == row_views(rows@),
            width == value_column(all.take(i as int), title@.len()),
        decreases rows.len() - i,
    {
        assert(all.take(i + 1).drop_last() =~= all.take(i as int));
        let n: usize = char_count(rows[i].1.as_str());
        if n > width {
            width = n;
        }
        i += 1;
    }
    assert(all.take(i as int) =~= all);
    width
}

/// The banner in its box, with the given rows.
fn layout_banner(title: &str, rows: &Vec<(String, String)>, width: usize) -> (r: Vec<String>)
    requires
        width == value_column(row_views(rows@), title@.len()),
        width <= usize::MAX - 11,
    ensures
        is_boxed_banner(r@, title@, row_views(rows@)),
{
    let ghost all = row_views(rows@);
    let inner: usize = 11 + width;
    let edge = tinted("│", Color::BrightBlack);
    let v = edge.as_str();
    let mut r: Vec<String> = Vec::new();
    r.push("".to_owned());
    r.push(banner_rule("╭", "╮", inner));
    let cell = tinted_bold(padded_right(title, inner).as_str(), Color::Magenta);
    r.push(layout_boxed(v, cell.as_str()));
    r.push(banner_rule("├", "┤", inner));
    let ghost head = r@;
    assert(is_banner_title(head[2]@, v@, title@, inner as nat));
    let mut i: usize = 0;
    while i < rows.len()
        invariant
            i <= rows.len(),
            all == row_views(rows@),
            head.len() == 4,
            r.len() == i + 4,
            forall|j: int| 0 <= j < 4 ==> #[trigger] r@[j] == head[j],
            forall|j: int|
                0 <= j < i ==> is_banner_row((#[trigger] r@[j + 4])@, v@, all[j], width as nat),
        decreases rows.len() - i,
    {
        let label = tinted(padded_right(rows[i].0.as_str(), 9).as_str(), Color::BrightBlack);
        let text = layout_banner_text(label.as_str(), rows[i].1.as_str(), width);
        assert(text@ == banner_text(label@, all[i as int].1, width as nat));
        let line = layout_boxed(v, text.as_str());
        assert(is_banner_row(line@, v@, all[i as int], width as nat));
        let ghost before = r@;
        r.push(line);
        assert forall|j: int| 0 <= j < i + 1 implies is_banner_row(
            (#[trigger] r@[j + 4])@,
            v@,
            all[j],
            width as nat,
        ) by {
            if j < i {
                assert(r@[j + 4] == before[j + 4]);
            }
        }
        i += 1;
    }
    let ghost before = r@;
    r.push(banner_rule("╰", "╯", inner));
    r.push("".to_owned());
    assert forall|j: int| 0 <= j < all.len() implies is_banner_row(
        (#[trigger] r@[j + 4])@,
        v@,
        all[j],
        width as nat,
    ) by {
        assert(r@[j + 4] == before[j + 4]);
    }
    assert(is_banner(r@, title@, all, v@)) by {
        assert(before[0] == head[0] && before[1] == head[1] && before[2] == head[2] && before[3]
            == head[3]);
    }
    r
}

/// What is printed when a session starts: the banner, in its box where there is a
/// terminal that is wide enough, and the message on the log file. Without a
/// terminal the lines are compact, so that they can be searched. Each line ends
/// with a line feed that is not part of it.
pub fn print_startup_banner(
    version: &str,
    procfile_path: &str,
    process_names: &Vec<String>,
    log_path_requested: Option<&str>,
    log_path_rotated: Option<&str>,
    term_width: Option<usize>,
) -> (r: (Vec<String>, Option<String>))
    ensures
        ({
            let title = "gaffa "@ + version@;
            let names = texts(process_names@);
            let log = match log_path_requested {
                Some(p) => Some(p@),
                None => None,
            };
            let rows = banner_rows(procfile_path@, names, log);
            match term_width {
                Some(w) if value_column(rows, title.len()) + 17 <= w => is_boxed_banner(
                    r.0@,
                    title,
                    rows,
                ),
                _ => is_compact_banner(r.0@, title, names, log),
            }
        }),
        match (log_path_requested, log_path_rotated) {
            (Some(req), Some(rot)) if req@ != rot@ => r.1 matches Some(line) && announced(
                line@,
                "rotated "@ + req@ + " → "@ + rot@,
                5,
                Color::Magenta,
            ),
            _ => r.1 is None,
        },
{
    let title = "gaffa ".to_owned().concat(version);
    let mut procs = String::new();
    push_decimal(&mut procs, process_names.len() as u64);
    procs.append(" · ");
    procs.append(join(process_names, ", ").as_str());
    assert(procs@ =~= processes_text(texts(process_names@)));
    let rows = rows_for_banner(procfile_path, procs.as_str(), log_path_requested);
    let ghost log = match log_path_requested {
        Some(p) => Some(p@),
        None => None,
    };
    assert(row_views(rows@) =~= banner_rows(procfile_path@, texts(process_names@), log));
    let width = width_of_values(&rows, title.as_str());
    let boxed = match term_width {
        Some(w) => w >= 17 && width <= w - 17,
        None => false,
    };
    let rotation = announce_log_rotation(log_path_requested, log_path_rotated);
    if !boxed {
        let mut lines: Vec<String> = Vec::new();
        let first = title.concat(" · ").concat(procs.as_str());
        lines.push(format_gaffa_message(first.as_str(), 5));
        if let Some(p) = log_path_requested {
            lines.push(format_gaffa_message("logging to ".to_owned().concat(p).as_str(), 5));
        }
        lines.push(format_gaffa_message("q or Ctrl+C to stop", 5));
        return (lines, rotation);
    }
    (layout_banner(title.as_str(), &rows, width), rotation)
}

/// What a session that is not interactive waits for, in order. From the end of
/// the wait on, it remembers whether it was interrupted.
#[derive(Clone, Copy, Debug, PartialEq, Eq, Structural)]
pub enum RunPhase {
    /// For a process to be started. `next` is the number of the one after it.
    Starting { next: usize },
    /// For the processes to stop, or for an interrupt.
    Waiting,
    /// For the processes to be stopped after an interrupt.
    Stopping,
    /// For processes without a child to be marked as stopped.
    Fixing,
    /// For the output to come to its end.
    Draining { interrupted: bool },
    /// For the summary to be shown.
    Summing { interrupted: bool },
    /// For the pause before the end.
    Pausing,
    /// For nothing more.
    Over,
}

/// What such a session does.
#[derive(Debug)]
pub enum RunAction {
    /// Start the process with this number, without messages.
    Start(usize),
    /// End with the error of a process that could not be started.
    Fail(ProcessError),
    /// Look again after this time.
    Sleep(u128),
    /// Reset the terminal, and stop all processes with these options.
    StopAll(LifecycleOptions),
    /// Mark processes without a child as stopped.
    FixOrphans,
    /// Wait that long for the output.
    Drain(u128),
    /// Reset the terminal, and show the summary.
    Summary,
    /// Wait that long.
    Pause(u128),
    /// End with this exit code.
    Exit(i32),
    /// End, and say whether there was an interrupt meanwhile.
    Return(bool),
}

/// What a session does next, and what it waits for then. It starts `names`
/// processes, and `started` is what came of the last start, if there was one.
/// `interrupted` says whether there was an interrupt by now, and `all_stopped`
/// whether every process is stopped. The first process that cannot be started
/// ends the session with its error.
pub open spec fn run_next(
    phase: RunPhase,
    names: nat,
    started: Option<Result<(), ProcessError>>,
    interrupted: bool,
    all_stopped: bool,
) -> (RunPhase, RunAction) {
    match phase {
        RunPhase::Starting { next } => match started {
            Some(Err(error)) => (RunPhase::Over, RunAction::Fail(error)),
            _ => if next < names {
                (RunPhase::Starting { next: (next + 1) as usize }, RunAction::Start(next))
            } else {
                (RunPhase::Waiting, RunAction::Sleep(WAIT_PAUSE))
            },
        },
        RunPhase::Waiting => if interrupted {
            (
                RunPhase::Stopping,
                RunAction::StopAll(LifecycleOptions { app_state: false, log_messages: false }),
            )
        } else if all_stopped {
            (RunPhase::Draining { interrupted: false }, RunAction::Drain(DRAIN_TIME))
        } else {
            (RunPhase::Waiting, RunAction::Sleep(WAIT_PAUSE))
        },
        RunPhase::Stopping => (RunPhase::Fixing, RunAction::FixOrphans),
        RunPhase::Fixing => (
            RunPhase::Draining { interrupted: true },
            RunAction::Drain(DRAIN_TIME),
        ),
        RunPhase::Draining { interrupted: was } => (
            RunPhase::Summing { interrupted: was },
            RunAction::Summary,
        ),
        RunPhase::Summing { interrupted: was } => if was {
            (RunPhase::Pausing, RunAction::Pause(EXIT_PAUSE))
        } else {
            (RunPhase::Over, RunAction::Return(interrupted))
        },
        RunPhase::Pausing | RunPhase::Over => (RunPhase::Over, RunAction::Exit(EXIT_INTERRUPTED)),
    }
}

/// What a session does next. It begins with `RunPhase::Starting { next: 0 }`.
pub fn run_non_interactive(
    phase: RunPhase,
    names: usize,
    started: Option<Result<(), ProcessError>>,
    interrupted: bool,
    all_stopped: bool,
) -> (r: (RunPhase, RunAction))
    requires
        phase != RunPhase::Over,
    ensures
        r == run_next(phase, names as nat, started, interrupted, all_stopped),
{
    match phase {
        RunPhase::Starting { next } => {
            if let Some(Err(error)) = started {
                return (RunPhase::Over, RunAction::Fail(error));
            }
            if next < names {
                (RunPhase::Starting { next: next + 1 }, RunAction::Start(next))
            } else {
                (RunPhase::Waiting, RunAction::Sleep(WAIT_PAUSE))
            }
        },
        RunPhase::Waiting => if interrupted {
            (RunPhase::Stopping, RunAction::StopAll(LifecycleOptions::quiet()))
        } else if all_stopped {
            (RunPhase::Draining { interrupted: false }, RunAction::Drain(DRAIN_TIME))
        } else {
            (RunPhase::Waiting, RunAction::Sleep(WAIT_PAUSE))
        },
        RunPhase::Stopping => (RunPhase::Fixing, RunAction::FixOrphans),
        RunPhase::Fixing => (
            RunPhase::Draining { interrupted: true },
            RunAction::Drain(DRAIN_TIME),
        ),
        RunPhase::Draining { interrupted: was } => (
            RunPhase::Summing { interrupted: was },
            RunAction::Summary,
        ),
        RunPhase::Summing { interrupted: was } => if was {
            (RunPhase::Pausing, RunAction::Pause(EXIT_PAUSE))
        } else {
            (RunPhase::Over, RunAction::Return(interrupted))
        },
        RunPhase::Pausing | RunPhase::Over => (RunPhase::Over, RunAction::Exit(EXIT_INTERRUPTED)),
    }
}

/// The place of a phase in the order in which a session of `names` processes
/// goes through them.
pub open spec fn run_rank(phase: RunPhase, names: nat) -> nat {
    match phase {
        RunPhase::Starting { next } => if next < names {
            next as nat
        } else {
            names
        },
        RunPhase::Waiting => names + 1,
        RunPhase::Stopping => names + 2,
        RunPhase::Fixing => names + 3,
        RunPhase::Draining { .. } => names + 4,
        RunPhase::Summing { .. } => names + 5,
        RunPhase::Pausing => names + 6,
        RunPhase::Over => names + 7,
    }
}

/// A session goes forward only, and waits on only while there is no interrupt
/// and some process is not stopped. After an interrupt all processes are
/// stopped before anything else.
pub proof fn law_session_goes_forward(
    phase: RunPhase,
    names: nat,
    started: Option<Result<(), ProcessError>>,
    interrupted: bool,
    all_stopped: bool,
)
    requires
        phase != RunPhase::Over,
        names <= usize::MAX,
    ensures
        ({
            let (next, action) = run_next(phase, names, started, interrupted, all_stopped);
            &&& run_rank(next, names) > run_rank(phase, names) || (phase == RunPhase::Waiting
                && next == phase)
            &&& phase == RunPhase::Waiting ==> (next == phase <==> !interrupted && !all_stopped)
            &&& phase == RunPhase::Waiting && interrupted ==> action is StopAll
        }),
{
}

/// The first process that cannot be started ends the session with its error:
/// nothing more is started, and no summary is shown. As long as none fails, the
/// processes are started in order, and then the session waits for them.
pub proof fn law_first_failed_start_ends_session(
    next: usize,
    names: nat,
    error: ProcessError,
    interrupted: bool,
    all_stopped: bool,
)
    requires
        names <= usize::MAX,
    ensures
        ({
            let phase = RunPhase::Starting { next };
            let failed = Some(Err::<(), ProcessError>(error));
            let ok = Some(Ok::<(), ProcessError>(()));
            &&& run_next(phase, names, failed, interrupted, all_stopped) == (
                RunPhase::Over,
                RunAction::Fail(error),
            )
            &&& next < names ==> run_next(phase, names, ok, interrupted, all_stopped) == (
                RunPhase::Starting { next: (next + 1) as usize },
                RunAction::Start(next),
            )
            &&& next >= names ==> run_next(phase, names, ok, interrupted, all_stopped).0
                == RunPhase::Waiting
        }),
{
}

/// A session that starts a process which is not known ends with that error.
pub proof fn law_unknown_process_ends_session(
    before: ProcessManager,
    after: ProcessManager,
    name: Seq<char>,
    opts: LifecycleOptions,
    step: Step,
    next: usize,
    names: nat,
    interrupted: bool,
    all_stopped: bool,
)
    requires
        begins_start(before, after, name, opts, step),
        !before.runtime.processes@.contains_key(name),
        !before.runtime.actors@.contains_key(name),
    ensures
        step.action matches Action::Finish(result) && run_next(
            RunPhase::Starting { next },
            names,
            Some(result),
            interrupted,
            all_stopped,
        ).1 matches RunAction::Fail(ProcessError::ProcessNotFound { name: n }) && n@ == name,
{
}

/// The phase that a session is in after the given number of steps from `phase`,
/// once its processes were started, where the flag and the processes are as the
/// sequence says.
pub open spec fn run_steps(phase: RunPhase, names: nat, seen: Seq<(bool, bool)>) -> RunPhase
    decreases seen.len(),
{
    if seen.len() == 0 || phase == RunPhase::Over {
        phase
    } else {
        run_steps(run_next(phase, names, None, seen[0].0, seen[0].1).0, names, seen.skip(1))
    }
}

/// A session that was interrupted while it waited ends with the exit code that
/// tells of it, whatever is seen on the way; one that was not, never does.
pub proof fn law_exit_code_tells_of_interrupt(
    names: nat,
    interrupted: bool,
    a: (bool, bool),
    b: (bool, bool),
    c: (bool, bool),
    d: (bool, bool),
    e: (bool, bool),
)
    ensures
        ({
            let first = run_next(RunPhase::Waiting, names, None, interrupted, true).0;
            if interrupted {
                let last = run_steps(first, names, seq![a, b, c, d]);
                last == RunPhase::Pausing && run_next(last, names, None, e.0, e.1).1
                    == RunAction::Exit(EXIT_INTERRUPTED)
            } else {
                let last = run_steps(first, names, seq![a]);
                run_next(last, names, None, b.0, b.1) == (RunPhase::Over, RunAction::Return(b.0))
            }
        }),
{
    reveal_with_fuel(run_steps, 6);
    let s = seq![a, b, c, d];
    assert(s.skip(1) =~= seq![b, c, d]);
    assert(s.skip(1).skip(1) =~= seq![c, d]);
    assert(s.skip(1).skip(1).skip(1) =~= seq![d]);
    assert(s.skip(1).skip(1).skip(1).skip(1) =~= seq![]);
    assert(seq![a].skip(1) =~= seq![]);
}

} // verus!
