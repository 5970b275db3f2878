//! The shell that runs the command lines of a Procfile.

use vstd::prelude::*;
use crate::platform::Host;
use crate::text::{
    chars_of, lemma_span_is, push_repeated, repeated, same_text, span, string_of, texts, trim,
    trimmed,
};

verus! {

/// The families of shells, by how they take a command line.
#[derive(Clone, Copy, Debug, PartialEq, Eq, Structural)]
pub enum ShellKind {
    Cmd,
    PowerShell,
    Posix,
}

/// How command lines are run: the program, its arguments, and the command line
/// as the last one. The command line is left to the shell, so that pipes,
/// redirections and variables work as they do when typed there.
#[derive(Debug, PartialEq, Eq)]
pub struct Shell {
    pub program: String,
    pub args: Vec<String>,
    pub kind: ShellKind,
}

/// Whether `c` separates the components of a path.
pub open spec fn separates(c: char) -> bool {
    c == '/' || c == '\\'
}

/// How much of `s` goes up to and with the last character that satisfies `p`.
pub open spec fn up_to_last(s: Seq<char>, p: spec_fn(char) -> bool) -> nat
    decreases s.len(),
{
    if s.len() == 0 || p(s.last()) {
        s.len()
    } else {
        up_to_last(s.drop_last(), p)
    }
}

/// The last part of `s` that satisfies `p` ends within `s`.
pub proof fn lemma_up_to_last(s: Seq<char>, p: spec_fn(char) -> bool)
    ensures
        up_to_last(s, p) <= s.len(),
    decreases s.len(),
{
    if s.len() > 0 && !p(s.last()) {
        lemma_up_to_last(s.drop_last(), p);
    }
}

/// Whether `c` separates the components of a path, where in a verbatim path only
/// a backslash does.
pub open spec fn divides(c: char, verbatim: bool) -> bool {
    c == '\\' || (!verbatim && c == '/')
}

/// The last component of a path that has no prefix. Empty components do not
/// count, nor does "." but in a verbatim path, where it names no file. ".." never
/// names one.
pub open spec fn name_in(path: Seq<char>, verbatim: bool) -> Option<Seq<char>>
    decreases path.len(),
{
    let start = up_to_last(path, |c: char| divides(c, verbatim));
    let last = path.skip(start as int);
    proof {
        lemma_up_to_last(path, |c: char| divides(c, verbatim));
    }
    if last == seq!['.', '.'] || (verbatim && last == seq!['.']) {
        None
    } else if last.len() > 0 && last != seq!['.'] {
        Some(last)
    } else if start == 0 {
        None
    } else {
        name_in(path.take(start - 1), verbatim)
    }
}

/// Whether a path is verbatim: whether it begins with `\\?\`.
pub open spec fn is_verbatim(path: Seq<char>) -> bool {
    path.len() >= 4 && path[0] == '\\' && path[1] == '\\' && path[2] == '?' && path[3] == '\\'
}

/// Whether a path may begin with a share or a device: with two separators. One
/// that has slashes alone does not: its double slash is as good as one.
pub open spec fn is_network(path: Seq<char>) -> bool {
    path.len() >= 2 && separates(path[0]) && separates(path[1]) && path.contains('\\')
}

/// Whether a path begins with the letter of a drive and a colon.
pub open spec fn has_drive(path: Seq<char>) -> bool {
    path.len() >= 2 && path[1] == ':' && (('a' <= path[0] && path[0] <= 'z') || ('A' <= path[0]
        && path[0] <= 'Z'))
}

/// The predicate that holds of what separates nothing.
pub open spec fn undivided(verbatim: bool) -> spec_fn(char) -> bool {
    |c: char| !divides(c, verbatim)
}

/// The length of the component that `s` begins with.
pub open spec fn part_len(s: Seq<char>, verbatim: bool) -> nat {
    span(s, undivided(verbatim))
}

/// The length of the share that `s` begins with: a server, and a name on it. Both
/// have to be there.
pub open spec fn share_len(s: Seq<char>) -> Option<nat> {
    let server = part_len(s, false);
    let name = part_len(s.skip(server as int + 1), false);
    if server == 0 || server >= s.len() || name == 0 {
        None
    } else {
        Some(server + 1 + name)
    }
}

/// The length of the share that `s` begins with in a verbatim path, where the name
/// on the server may be missing.
pub open spec fn verbatim_share_len(s: Seq<char>) -> nat {
    let server = part_len(s, true);
    let name = part_len(s.skip(server as int + 1), true);
    if server >= s.len() || name == 0 {
        server
    } else {
        server + 1 + name
    }
}

/// The length of what a path begins with before any directory: a share, a device,
/// or a drive.
pub open spec fn prefix_len(path: Seq<char>) -> nat {
    if is_verbatim(path) {
        let rest = path.skip(4);
        if rest.len() >= 4 && rest[0] == 'U' && rest[1] == 'N' && rest[2] == 'C' && separates(
            rest[3],
        ) {
            8 + verbatim_share_len(path.skip(8))
        } else {
            4 + part_len(rest, true)
        }
    } else if is_network(path) {
        if path.len() >= 4 && path[2] == '.' && separates(path[3]) {
            4 + part_len(path.skip(4), false)
        } else {
            match share_len(path.skip(2)) {
                Some(n) => 2 + n,
                None => 0,
            }
        }
    } else if has_drive(path) {
        2
    } else {
        0
    }
}

/// The last component of a path. One that has nothing behind its share, device or
/// drive names no file.
pub open spec fn file_name(path: Seq<char>) -> Option<Seq<char>> {
    name_in(path.skip(prefix_len(path) as int), is_verbatim(path))
}

/// A file name without its extension. A name that begins with its only dot has
/// no extension.
pub open spec fn without_extension(name: Seq<char>) -> Seq<char> {
    let dot = up_to_last(name, |c: char| c == '.');
    if dot <= 1 {
        name
    } else {
        name.take(dot - 1)
    }
}

/// `c` in lower case, where it is an ASCII letter.
pub open spec fn lower(c: char) -> char {
    if 'A' <= c && c <= 'Z' {
        ((c as u8) + 32) as char
    } else {
        c
    }
}

/// The name by which a shell is known: that of its program without
/// directory and extension, in lower case.
pub open spec fn stem(program: Seq<char>) -> Seq<char> {
    let name = match file_name(program) {
        Some(name) => without_extension(name),
        None => program,
    };
    Seq::new(name.len(), |i: int| lower(name[i]))
}

/// The family of the shell with the given program.
pub open spec fn kind_of(program: Seq<char>) -> ShellKind {
    if stem(program) == "cmd"@ {
        ShellKind::Cmd
    } else if stem(program) == "pwsh"@ || stem(program) == "powershell"@ {
        ShellKind::PowerShell
    } else {
        ShellKind::Posix
    }
}

/// The arguments that make a shell run its next argument.
pub open spec fn flags_of(kind: ShellKind) -> Seq<Seq<char>> {
    match kind {
        ShellKind::Cmd => seq!["/C"@],
        ShellKind::PowerShell => seq!["-NoProfile"@, "-Command"@],
        ShellKind::Posix => seq!["-c"@],
    }
}

/// `s` with every double quote escaped, and the backslashes before one doubled.
/// `pending` backslashes stand right before `s`.
pub open spec fn escaped(s: Seq<char>, pending: nat) -> Seq<char>
    decreases s.len(),
{
    if s.len() == 0 {
        s
    } else if s[0] == '\\' {
        seq!['\\'] + escaped(s.skip(1), pending + 1)
    } else if s[0] == '"' {
        repeated('\\', pending + 1) + seq!['"'] + escaped(s.skip(1), 0)
    } else {
        seq![s[0]] + escaped(s.skip(1), 0)
    }
}

/// The command line in the form in which a shell of the given family has to get
/// it. PowerShell loses double quotes that are not escaped.
pub open spec fn prepared(kind: ShellKind, command: Seq<char>) -> Seq<char> {
    if kind == ShellKind::PowerShell {
        escaped(command, 0)
    } else {
        command
    }
}

/// What a Windows program reads from its command line where `s` stands behind
/// `pending` backslashes. Backslashes before a double quote count in pairs, an
/// odd one keeps the quote as a character, and a quote that is not kept is
/// dropped.
pub open spec fn read_back(s: Seq<char>, pending: nat) -> Seq<char>
    decreases s.len(),
{
    if s.len() == 0 {
        repeated('\\', pending)
    } else if s[0] == '\\' {
        read_back(s.skip(1), pending + 1)
    } else if s[0] == '"' {
        repeated('\\', pending / 2) + if pending % 2 == 1 {
            seq!['"']
        } else {
            seq![]
        } + read_back(s.skip(1), 0)
    } else {
        repeated('\\', pending) + seq![s[0]] + read_back(s.skip(1), 0)
    }
}

proof fn lemma_read_backslashes(k: nat, s: Seq<char>, pending: nat)
    ensures
        read_back(repeated('\\', k) + s, pending) == read_back(s, pending + k),
    decreases k,
{
    let t = repeated('\\', k) + s;
    if k == 0 {
        assert(t =~= s);
    } else {
        assert(t.skip(1) =~= repeated('\\', (k - 1) as nat) + s);
        lemma_read_backslashes((k - 1) as nat, s, pending + 1);
    }
}

proof fn lemma_read_back(s: Seq<char>, pending: nat)
    ensures
        read_back(escaped(s, pending), pending) == repeated('\\', pending) + s,
    decreases s.len(),
{
    let out = repeated('\\', pending) + s;
    if s.len() == 0 {
        assert(out =~= repeated('\\', pending));
    } else {
        let rest = s.skip(1);
        if s[0] == '\\' {
            let e = escaped(s, pending);
            lemma_read_back(rest, pending + 1);
            assert(e.skip(1) =~= escaped(rest, pending + 1));
            assert(repeated('\\', pending + 1) + rest =~= out);
        } else if s[0] == '"' {
            let tail = seq!['"'] + escaped(rest, 0);
            assert(escaped(s, pending) =~= repeated('\\', pending + 1) + tail);
            lemma_read_backslashes(pending + 1, tail, pending);
            lemma_read_back(rest, 0);
            assert(tail.skip(1) =~= escaped(rest, 0));
            let n = pending + (pending + 1);
            assert(n / 2 == pending && n % 2 == 1);
            assert(repeated('\\', pending) + seq!['"'] + (repeated('\\', 0) + rest) =~= out);
        } else {
            let e = escaped(s, pending);
            lemma_read_back(rest, 0);
            assert(e.skip(1) =~= escaped(rest, 0));
            assert(repeated('\\', pending) + seq![s[0]] + (repeated('\\', 0) + rest) =~= out);
        }
    }
}

/// A command line arrives at PowerShell as it was written: what is read back
/// from the prepared form is the command itself.
pub proof fn law_command_arrives_verbatim(command: Seq<char>)
    ensures
        read_back(prepared(ShellKind::PowerShell, command), 0) == command,
{
    lemma_read_back(command, 0);
    assert(repeated('\\', 0) + command =~= command);
}

/// Without a double quote nothing is escaped.
proof fn lemma_escaped_unquoted(s: Seq<char>, pending: nat)
    requires
        forall|i: int| 0 <= i < s.len() ==> #[trigger] s[i] != '"',
    ensures
        escaped(s, pending) == s,
    decreases s.len(),
{
    if s.len() > 0 {
        assert forall|i: int| 0 <= i < s.skip(1).len() implies #[trigger] s.skip(1)[i] != '"' by {
            assert(s[i + 1] != '"');
        }
        assert(s[0] != '"');
        lemma_escaped_unquoted(
            s.skip(1),
            if s[0] == '\\' {
                pending + 1
            } else {
                0
            },
        );
        assert(seq![s[0]] + s.skip(1) =~= s);
    }
}

/// A command line without a double quote is handed to every shell as it is.
pub proof fn law_unquoted_command_is_kept(kind: ShellKind, command: Seq<char>)
    requires
        !command.contains('"'),
    ensures
        prepared(kind, command) == command,
{
    assert forall|i: int| 0 <= i < command.len() implies #[trigger] command[i] != '"' by {
        assert(command.contains(command[i]));
    }
    lemma_escaped_unquoted(command, 0);
}

fn is_separator(c: char) -> (r: bool)
    ensures
        r == separates(c),
{
    c == '/' || c == '\\'
}

/// Whether `c` separates components, in a verbatim path or another one.
fn is_divider(c: char, verbatim: bool) -> (r: bool)
    ensures
        r == divides(c, verbatim),
{
    c == '\\' || (!verbatim && c == '/')
}

/// The end of the component that begins at `from`.
fn part_end(v: &Vec<char>, from: usize, verbatim: bool) -> (r: usize)
    requires
        from <= v.len(),
    ensures
        from <= r <= v.len(),
        r - from == part_len(v@.skip(from as int), verbatim),
{
    let mut i: usize = from;
    while i < v.len() && !is_divider(v[i], verbatim)
        invariant
            from <= i <= v.len(),
            forall|j: int| from <= j < i ==> !divides(#[trigger] v@[j], verbatim),
        decreases v.len() - i,
    {
        i += 1;
    }
    proof {
        lemma_span_is(v@.skip(from as int), undivided(verbatim), (i - from) as nat);
    }
    i
}

/// Whether a backslash stands in `v`.
fn has_backslash(v: &Vec<char>) -> (r: bool)
    ensures
        r == v@.contains('\\'),
{
    let mut i: usize = 0;
    while i < v.len()
        invariant
            i <= v.len(),
            forall|j: int| 0 <= j < i ==> #[trigger] v@[j] != '\\',
        decreases v.len() - i,
    {
        if v[i] == '\\' {
            assert(v@[i as int] == '\\');
            return true;
        }
        i += 1;
    }
    false
}

/// The end of what a path begins with before any directory.
fn prefix_end(v: &Vec<char>) -> (r: usize)
    ensures
        r <= v.len(),
        r == prefix_len(v@),
{
    if verbatim_path(v) {
        if v.len() >= 8 && v[4] == 'U' && v[5] == 'N' && v[6] == 'C' && is_separator(v[7]) {
            let server = part_end(v, 8, true);
            if server == v.len() {
                return server;
            }
            assert(v@.skip(8).skip(server - 8 + 1) =~= v@.skip(server + 1));
            let name = part_end(v, server + 1, true);
            if name == server + 1 {
                return server;
            }
            return name;
        }
        return part_end(v, 4, true);
    }
    if v.len() >= 2 && is_separator(v[0]) && is_separator(v[1]) && has_backslash(v) {
        if v.len() >= 4 && v[2] == '.' && is_separator(v[3]) {
            return part_end(v, 4, false);
        }
        let server = part_end(v, 2, false);
        if server == 2 || server == v.len() {
            return 0;
        }
        assert(v@.skip(2).skip(server - 2 + 1) =~= v@.skip(server + 1));
        let name = part_end(v, server + 1, false);
        if name == server + 1 {
            return 0;
        }
        return name;
    }
    if v.len() >= 2 && v[1] == ':' && (('a' <= v[0] && v[0] <= 'z') || ('A' <= v[0] && v[0]
        <= 'Z')) {
        2
    } else {
        0
    }
}

/// Whether a path is verbatim.
fn verbatim_path(v: &Vec<char>) -> (r: bool)
    ensures
        r == is_verbatim(v@),
{
    v.len() >= 4 && v[0] == '\\' && v[1] == '\\' && v[2] == '?' && v[3] == '\\'
}

/// Where the last component of `v[..end]` starts.
fn component_start(v: &Vec<char>, end: usize, verbatim: bool) -> (r: usize)
    requires
        end <= v.len(),
    ensures
        r <= end,
        r == up_to_last(v@.take(end as int), |c: char| divides(c, verbatim)),
{
    let ghost p = |c: char| divides(c, verbatim);
    let mut i: usize = end;
    while i > 0 && !is_divider(v[i - 1], verbatim)
        invariant
            i <= end <= v.len(),
            p == (|c: char| divides(c, verbatim)),
            up_to_last(v@.take(i as int), p) == up_to_last(v@.take(end as int), p),
        decreases i,
    {
        assert(v@.take(i as int).drop_last() =~= v@.take(i - 1));
        i -= 1;
    }
    i
}

/// The bounds of the last component of a path that has no prefix.
fn find_name(v: &Vec<char>, verbatim: bool) -> (r: Option<(usize, usize)>)
    ensures
        match r {
            Some(b) => b.0 <= b.1 <= v.len() && name_in(v@, verbatim) == Some(
                v@.subrange(b.0 as int, b.1 as int),
            ),
            None => name_in(v@, verbatim) is None,
        },
{
    let mut end: usize = v.len();
    assert(v@.take(end as int) =~= v@);
    loop
        invariant
            end <= v.len(),
            name_in(v@.take(end as int), verbatim) == name_in(v@, verbatim),
        decreases end,
    {
        let ghost path = v@.take(end as int);
        let start = component_start(v, end, verbatim);
        let ghost last = path.skip(start as int);
        assert(last =~= v@.subrange(start as int, end as int));
        let len: usize = end - start;
        if len == 2 && v[start] == '.' && v[start + 1] == '.' {
            assert(last =~= seq!['.', '.']);
            return None;
        }
        assert(last != seq!['.', '.']) by {
            if last == seq!['.', '.'] {
                assert(last[0] == '.' && last[1] == '.');
            }
        }
        if len > 0 && !(len == 1 && v[start] == '.') {
            assert(last != seq!['.']) by {
                if last == seq!['.'] {
                    assert(last[0] == '.');
                }
            }
            return Some((start, end));
        }
        assert(last.len() > 0 ==> last =~= seq!['.']);
        if start == 0 || (verbatim && len == 1) {
            return None;
        }
        assert(path.take(start - 1) =~= v@.take(start - 1));
        end = start - 1;
    }
}

/// The end of `v[start..end]` without its extension.
fn stem_end(v: &Vec<char>, start: usize, end: usize) -> (r: usize)
    requires
        start <= end <= v.len(),
    ensures
        start <= r <= end,
        v@.subrange(start as int, r as int) == without_extension(
            v@.subrange(start as int, end as int),
        ),
{
    let ghost name = v@.subrange(start as int, end as int);
    let ghost p = |c: char| c == '.';
    let mut i: usize = end;
    assert(name.take(name.len() as int) =~= name);
    while i > start && v[i - 1] != '.'
        invariant
            start <= i <= end <= v.len(),
            name == v@.subrange(start as int, end as int),
            p == (|c: char| c == '.'),
            up_to_last(name.take(i - start), p) == up_to_last(name, p),
        decreases i,
    {
        assert(name.take(i - start).drop_last() =~= name.take(i - start - 1));
        i -= 1;
    }
    assert(up_to_last(name, p) == i - start) by {
        if i > start {
            assert(name.take(i - start).last() == v@[i - 1]);
        }
    }
    if i - start <= 1 {
        end
    } else {
        assert(v@.subrange(start as int, i - 1) =~= name.take(i - start - 1));
        i - 1
    }
}

/// The name by which a shell is known.
fn stem_of(program: &str) -> (r: String)
    ensures
        r@ == stem(program@),
{
    let all = chars_of(program);
    let from = prefix_end(&all);
    let path = string_of(&all, from, all.len());
    assert(path@ =~= program@.skip(prefix_len(program@) as int));
    let rest = chars_of(path.as_str());
    let (v, start, end) = match find_name(&rest, verbatim_path(&all)) {
        Some(b) => {
            let end = stem_end(&rest, b.0, b.1);
            (rest, b.0, end)
        },
        None => {
            assert(all@.subrange(0, all.len() as int) =~= all@);
            let len = all.len();
            (all, 0, len)
        },
    };
    let ghost name = v@.subrange(start as int, end as int);
    let mut out = String::new();
    let mut i: usize = start;
    while i < end
        invariant
            start <= i <= end <= v.len(),
            name == v@.subrange(start as int, end as int),
            out@ == Seq::new((i - start) as nat, |j: int| lower(name[j])),
        decreases end - i,
    {
        let c = v[i];
        assert(name[i - start] == c);
        if 'A' <= c && c <= 'Z' {
            out.push((c as u8 + 32) as char);
        } else {
            out.push(c);
        }
        i += 1;
        assert(out@ =~= Seq::new((i - start) as nat, |j: int| lower(name[j])));
    }
    assert(out@ =~= stem(program@));
    out
}

impl Clone for Shell {
    fn clone(&self) -> (r: Self)
        ensures
            r.program@ == self.program@,
            texts(r.args@) == texts(self.args@),
            r.kind == self.kind,
    {
        let mut args: Vec<String> = Vec::new();
        let mut i: usize = 0;
        while i < self.args.len()
            invariant
                i <= self.args.len(),
                texts(args@) == texts(self.args@).take(i as int),
            decreases self.args.len() - i,
        {
            let ghost before = texts(args@);
            args.push(self.args[i].clone());
            assert(texts(args@) =~= before.push(self.args@[i as int]@));
            assert(texts(self.args@).take(i + 1) =~= texts(self.args@).take(i as int).push(
                self.args@[i as int]@,
            ));
            i += 1;
        }
        assert(texts(self.args@).take(i as int) =~= texts(self.args@));
        Shell { program: self.program.clone(), args, kind: self.kind }
    }
}

/// Whether `shell` is the one that the given program makes.
pub open spec fn is_shell_of(shell: Shell, program: Seq<char>) -> bool {
    &&& shell.program@ == program
    &&& shell.kind == kind_of(program)
    &&& texts(shell.args@) == flags_of(kind_of(program))
}

/// The program that is the shell unless one is chosen: PowerShell on Windows
/// where it is installed, else cmd; sh elsewhere.
pub open spec fn default_program(host: Host) -> Seq<char> {
    if !host.windows {
        "sh"@
    } else if host.pwsh_on_path {
        "pwsh"@
    } else {
        "cmd"@
    }
}

/// The program of the shell to use: the one that was asked for, else the one
/// that the variable `GAFFA_SHELL` names, else the default of the platform. A
/// blank variable counts as none.
pub open spec fn resolved_program(
    explicit: Option<&str>,
    gaffa_shell: Option<&str>,
    host: Host,
) -> Seq<char> {
    match explicit {
        Some(program) => program@,
        None => match gaffa_shell {
            Some(program) if trimmed(program@).len() > 0 => trimmed(program@),
            _ => default_program(host),
        },
    }
}

impl Shell {
    /// The shell with the given program, by name or path. A program that is not
    /// known is taken for a POSIX shell.
    pub fn from_program(program: &str) -> (r: Self)
        ensures
            is_shell_of(r, program@),
    {
        let name = stem_of(program);
        let mut args: Vec<String> = Vec::new();
        let kind = if same_text(name.as_str(), "cmd") {
            args.push("/C".to_owned());
            assert(texts(args@) =~= flags_of(ShellKind::Cmd));
            ShellKind::Cmd
        } else if same_text(name.as_str(), "pwsh") || same_text(name.as_str(), "powershell") {
            args.push("-NoProfile".to_owned());
            args.push("-Command".to_owned());
            assert(texts(args@) =~= flags_of(ShellKind::PowerShell));
            ShellKind::PowerShell
        } else {
            args.push("-c".to_owned());
            assert(texts(args@) =~= flags_of(ShellKind::Posix));
            ShellKind::Posix
        };
        Shell { program: program.to_owned(), args, kind }
    }

    /// The command line in the form in which this shell has to get it, so that
    /// the script arrives as it was written.
    pub fn prepare_command(&self, command: &str) -> (r: String)
        ensures
            r@ == prepared(self.kind, command@),
    {
        if self.kind != ShellKind::PowerShell {
            return command.to_owned();
        }
        let v = chars_of(command);
        let mut out = String::new();
        let mut backslashes: usize = 0;
        let mut i: usize = 0;
        assert(v@.skip(0) =~= v@);
        assert(out@ + escaped(v@.skip(0), 0) =~= escaped(command@, 0));
        while i < v.len()
            invariant
                i <= v.len(),
                backslashes <= i,
                v@ == command@,
                out@ + escaped(v@.skip(i as int), backslashes as nat) == escaped(command@, 0),
            decreases v.len() - i,
        {
            let ghost before = out@;
            let ghost here = v@.skip(i as int);
            let ghost pending = backslashes as nat;
            assert(here.skip(1) =~= v@.skip(i + 1));
            let c = v[i];
            if c == '\\' {
                backslashes += 1;
                out.push('\\');
            } else if c == '"' {
                push_repeated(&mut out, '\\', backslashes + 1);
                out.push('"');
                backslashes = 0;
            } else {
                backslashes = 0;
                out.push(c);
            }
            i += 1;
            assert(out@ + escaped(v@.skip(i as int), backslashes as nat) =~= before + escaped(
                here,
                pending,
            ));
        }
        assert(out@ + escaped(v@.skip(i as int), backslashes as nat) =~= out@);
        out
    }

    /// The shell to use: the one that was asked for, else the one that the
    /// variable `GAFFA_SHELL` names, else the default of the platform. A blank
    /// variable counts as none.
    pub fn resolve(explicit: Option<&str>, gaffa_shell: Option<&str>, host: Host) -> (r: Self)
        ensures
            is_shell_of(r, resolved_program(explicit, gaffa_shell, host)),
    {
        if let Some(program) = explicit {
            return Self::from_program(program);
        }
        if let Some(program) = gaffa_shell {
            let name = trim(program);
            if !same_text(name.as_str(), "") {
                proof {
                    reveal_strlit("");
                    assert(name@.len() == 0 ==> name@ =~= ""@);
                }
                return Self::from_program(name.as_str());
            }
            proof {
                reveal_strlit("");
            }
        }
        Self::platform_default(host)
    }

    /// The shell of the platform.
    pub fn platform_default(host: Host) -> (r: Self)
        ensures
            is_shell_of(r, default_program(host)),
    {
        if !host.windows {
            Self::from_program("sh")
        } else if host.pwsh_on_path {
            Self::from_program("pwsh")
        } else {
            Self::from_program("cmd")
        }
    }
}

proof fn lemma_last_at(s: Seq<char>, p: spec_fn(char) -> bool, k: nat)
    requires
        k <= s.len(),
        k > 0 ==> p(s[k - 1]),
        forall|i: int| k <= i < s.len() ==> !p(#[trigger] s[i]),
    ensures
        up_to_last(s, p) == k,
    decreases s.len(),
{
    if s.len() > k {
        let t = s.drop_last();
        assert(!p(s[s.len() - 1]));
        assert forall|i: int| k <= i < t.len() implies !p(#[trigger] t[i]) by {
            assert(t[i] == s[i]);
        }
        if k > 0 {
            assert(t[k - 1] == s[k - 1]);
        }
        lemma_last_at(t, p, k);
    }
}

/// The file that a path names is what stands behind the last separator, whichever
/// directory that is in. A path that begins with two separators, which may be a
/// share, is another matter.
pub proof fn law_directory_is_dropped(dir: Seq<char>, sep: char, name: Seq<char>)
    requires
        sep == '/' || sep == '\\',
        name.len() > 0,
        forall|i: int| 0 <= i < name.len() ==> #[trigger] name[i] != '/' && name[i] != '\\',
        name != seq!['.'] && name != seq!['.', '.'],
        ({
            let path = dir + seq![sep] + name;
            !(separates(path[0]) && separates(path[1]))
        }),
    ensures
        file_name(dir + seq![sep] + name) == Some(name),
{
    let path = dir + seq![sep] + name;
    let p = |c: char| divides(c, false);
    assert(!is_verbatim(path) && !is_network(path));
    let n = prefix_len(path) as int;
    if has_drive(path) {
        assert(dir.len() >= 2) by {
            if dir.len() == 0 {
                assert(path[0] == sep);
            } else if dir.len() == 1 {
                assert(path[1] == sep);
            }
        }
    }
    let rest = path.skip(n);
    let k = (dir.len() + 1 - n) as nat;
    assert(rest[k - 1] == sep);
    assert forall|i: int| k <= i < rest.len() implies !p(#[trigger] rest[i]) by {
        assert(rest[i] == name[i - k]);
    }
    lemma_last_at(rest, p, k);
    assert(rest.skip(k as int) =~= name);
}

/// A name without a directory, a drive or a separator is the file itself.
pub proof fn law_bare_name_is_the_file(name: Seq<char>)
    requires
        name.len() > 0,
        forall|i: int|
            0 <= i < name.len() ==> #[trigger] name[i] != '/' && name[i] != '\\' && name[i] != ':',
        name != seq!['.'] && name != seq!['.', '.'],
    ensures
        file_name(name) == Some(name),
{
    let p = |c: char| divides(c, false);
    assert(prefix_len(name) == 0);
    assert(name.skip(0) =~= name);
    lemma_last_at(name, p, 0);
}

/// A separator at the end of a path does not matter, nor does a dot behind one.
pub proof fn law_path_may_end_with_separator(path: Seq<char>, sep: char)
    requires
        sep == '/' || sep == '\\',
    ensures
        name_in(path + seq![sep], false) == name_in(path, false),
        name_in(path + seq![sep, '.'], false) == name_in(path, false),
        name_in(path + seq![sep, '.', '.'], false) is None,
{
    let p = |c: char| divides(c, false);
    let a = path + seq![sep];
    let n = path.len() as int;
    lemma_last_at(a, p, a.len());
    assert(a.skip(n + 1) =~= seq![]);
    assert(a.skip(n + 1) != seq!['.', '.']) by {
        assert(seq!['.', '.'].len() == 2);
    }
    assert(a.take(n) =~= path);
    let b = path + seq![sep, '.'];
    assert(b[n] == sep && b[n + 1] == '.');
    lemma_last_at(b, p, a.len());
    assert(b.skip(n + 1) =~= seq!['.']);
    assert(b.skip(n + 1) != seq!['.', '.']) by {
        assert(seq!['.'].len() == 1);
        assert(seq!['.', '.'].len() == 2);
    }
    assert(b.take(n) =~= path);
    let c = path + seq![sep, '.', '.'];
    assert(c[n] == sep && c[n + 1] == '.' && c[n + 2] == '.');
    lemma_last_at(c, p, a.len());
    assert(c.skip(n + 1) =~= seq!['.', '.']);
}

/// An extension is dropped, up to the last dot and no further, unless nothing stands
/// before that dot. A name without a dot is kept.
pub proof fn law_extension_is_dropped(base: Seq<char>, ext: Seq<char>)
    requires
        !ext.contains('.'),
    ensures
        base.len() > 0 ==> without_extension(base + seq!['.'] + ext) == base,
        base.len() == 0 ==> without_extension(base + seq!['.'] + ext) == seq!['.'] + ext,
        without_extension(ext) == ext,
{
    let p = |c: char| c == '.';
    let name = base + seq!['.'] + ext;
    let k = base.len() + 1;
    assert(name[k - 1] == '.');
    assert forall|i: int| k <= i < name.len() implies !p(#[trigger] name[i]) by {
        assert(name[i] == ext[i - k]);
        assert(ext.contains(ext[i - k]));
    }
    lemma_last_at(name, p, k);
    assert(name.take(k - 1) =~= base);
    assert(base.len() == 0 ==> name =~= seq!['.'] + ext);
    assert forall|i: int| 0 <= i < ext.len() implies !p(#[trigger] ext[i]) by {
        assert(ext.contains(ext[i]));
    }
    lemma_last_at(ext, p, 0);
}

/// A capital letter becomes the small one, and everything else stays as it is.
pub proof fn law_lower_is_for_capitals(c: char)
    ensures
        'A' <= c && c <= 'Z' ==> lower(c) as u32 == c as u32 + 32,
        !('A' <= c && c <= 'Z') ==> lower(c) == c,
        lower(lower(c)) == lower(c),
{
}

/// A shell is known by the name of its program, whatever directory that is in,
/// whatever extension it has and whichever case it is written in.
pub proof fn law_shell_is_known_by_its_name(
    dir: Seq<char>,
    sep: char,
    base: Seq<char>,
    ext: Seq<char>,
)
    requires
        sep == '/' || sep == '\\',
        base.len() > 0,
        forall|i: int|
            0 <= i < base.len() ==> #[trigger] base[i] != '/' && base[i] != '\\' && base[i] != ':'
                && base[i] != '.',
        forall|i: int|
            0 <= i < ext.len() ==> #[trigger] ext[i] != '/' && ext[i] != '\\' && ext[i] != '.',
        ({
            let path = dir + seq![sep] + base;
            !(separates(path[0]) && separates(path[1]))
        }),
    ensures
        stem(base).len() == base.len(),
        forall|i: int| 0 <= i < base.len() ==> #[trigger] stem(base)[i] == lower(base[i]),
        stem(dir + seq![sep] + base) == stem(base),
        stem(dir + seq![sep] + (base + seq!['.'] + ext)) == stem(base),
        kind_of(dir + seq![sep] + base) == kind_of(base),
        kind_of(dir + seq![sep] + (base + seq!['.'] + ext)) == kind_of(base),
{
    let name = base + seq!['.'] + ext;
    let dot = seq!['.'];
    let dots = seq!['.', '.'];
    assert(base != dot && base != dots) by {
        assert(base[0] != '.');
        assert(dot[0] == '.' && dots[0] == '.');
    }
    assert(name[0] == base[0]);
    assert(name != dot && name != dots) by {
        assert(dot[0] == '.' && dots[0] == '.');
    }
    assert forall|i: int| 0 <= i < name.len() implies #[trigger] name[i] != '/' && name[i]
        != '\\' by {
        if i < base.len() {
            assert(name[i] == base[i]);
        } else if i > base.len() {
            assert(name[i] == ext[i - base.len() - 1]);
        }
    }
    assert(!base.contains('.'));
    assert(!ext.contains('.'));
    law_bare_name_is_the_file(base);
    law_directory_is_dropped(dir, sep, base);
    let path = dir + seq![sep] + name;
    let short = dir + seq![sep] + base;
    assert(path[0] == short[0] && path[1] == short[1]);
    law_directory_is_dropped(dir, sep, name);
    law_extension_is_dropped(base, ext);
    law_extension_is_dropped(base, base);
}

/// Each family of shells has its own names and its own way to take a command, and
/// every other program is taken for a POSIX shell.
pub proof fn law_shells_take_commands_their_way(program: Seq<char>)
    ensures
        kind_of(program) == ShellKind::Cmd <==> stem(program) == "cmd"@,
        kind_of(program) == ShellKind::PowerShell <==> stem(program) == "pwsh"@ || stem(program)
            == "powershell"@,
        flags_of(ShellKind::Cmd) == seq!["/C"@],
        flags_of(ShellKind::PowerShell) == seq!["-NoProfile"@, "-Command"@],
        flags_of(ShellKind::Posix) == seq!["-c"@],
{
    reveal_strlit("cmd");
    reveal_strlit("pwsh");
    reveal_strlit("powershell");
    assert("cmd"@[0] == 'c' && "pwsh"@[0] == 'p' && "powershell"@[0] == 'p');
}

/// Only PowerShell gets a command line in another form than the one it is written
/// in.
pub proof fn law_other_shells_get_the_command_itself(kind: ShellKind, command: Seq<char>)
    ensures
        kind != ShellKind::PowerShell ==> prepared(kind, command) == command,
{
}

/// The program that was asked for comes before the variable, and the variable, where
/// it is not blank, before the default.
pub proof fn law_shell_is_chosen_in_order(asked: &str, variable: &str, host: Host)
    ensures
        resolved_program(Some(asked), Some(variable), host) == asked@,
        resolved_program(Some(asked), None, host) == asked@,
        trimmed(variable@).len() > 0 ==> resolved_program(None, Some(variable), host) == trimmed(
            variable@,
        ),
        trimmed(variable@).len() == 0 ==> resolved_program(None, Some(variable), host)
            == default_program(host),
        resolved_program(None, None, host) == default_program(host),
        !host.windows ==> default_program(host) == "sh"@,
        host.windows ==> default_program(host) == if host.pwsh_on_path {
            "pwsh"@
        } else {
            "cmd"@
        },
{
}

/// A share names no file, and behind it the last component does, as in any directory.
pub proof fn law_share_is_no_file(server: Seq<char>, share: Seq<char>, dir: Seq<char>, name: Seq<char>)
    requires
        server.len() > 0 && share.len() > 0 && name.len() > 0,
        forall|i: int| 0 <= i < server.len() ==> #[trigger] server[i] != '/' && server[i] != '\\',
        forall|i: int| 0 <= i < share.len() ==> #[trigger] share[i] != '/' && share[i] != '\\',
        forall|i: int| 0 <= i < name.len() ==> #[trigger] name[i] != '/' && name[i] != '\\',
        server != seq!['?'] && server != seq!['.'],
        name != seq!['.'] && name != seq!['.', '.'],
        dir.len() == 0 || separates(dir[0]),
    ensures
        ({
            let root = seq!['\\', '\\'] + server + seq!['\\'] + share;
            &&& file_name(root) is None
            &&& file_name(root + (dir + seq!['\\'] + name)) == Some(name)
        }),
{
    let root = seq!['\\', '\\'] + server + seq!['\\'] + share;
    let tail = dir + seq!['\\'] + name;
    lemma_share(server, share, seq![]);
    assert(root + seq![] =~= root);
    assert(root.skip(root.len() as int) =~= seq![]);
    lemma_last_at(Seq::<char>::empty(), |c: char| divides(c, false), 0);
    assert(Seq::<char>::empty().skip(0) =~= seq![]);
    assert(Seq::<char>::empty() != seq!['.', '.'] && Seq::<char>::empty() != seq!['.']) by {
        assert(seq!['.', '.'].len() == 2 && seq!['.'].len() == 1);
    }
    assert(tail[0] == '\\' || separates(tail[0])) by {
        if dir.len() > 0 {
            assert(tail[0] == dir[0]);
        }
    }
    lemma_share(server, share, tail);
    let path = root + tail;
    assert(path.skip(root.len() as int) =~= tail);
    let k = dir.len() + 1;
    let p = |c: char| divides(c, false);
    assert(tail[k - 1] == '\\');
    assert forall|i: int| k <= i < tail.len() implies !p(#[trigger] tail[i]) by {
        assert(tail[i] == name[i - k]);
    }
    lemma_last_at(tail, p, k);
    assert(tail.skip(k as int) =~= name);
}

proof fn lemma_share(server: Seq<char>, share: Seq<char>, tail: Seq<char>)
    requires
        server.len() > 0 && share.len() > 0,
        forall|i: int| 0 <= i < server.len() ==> #[trigger] server[i] != '/' && server[i] != '\\',
        forall|i: int| 0 <= i < share.len() ==> #[trigger] share[i] != '/' && share[i] != '\\',
        server != seq!['?'] && server != seq!['.'],
        tail.len() == 0 || separates(tail[0]),
    ensures
        ({
            let root = seq!['\\', '\\'] + server + seq!['\\'] + share;
            &&& prefix_len(root + tail) == root.len()
            &&& !is_verbatim(root + tail)
        }),
{
    let root = seq!['\\', '\\'] + server + seq!['\\'] + share;
    let path = root + tail;
    let n = server.len();
    assert(path[0] == '\\' && path[1] == '\\');
    assert(path.contains('\\'));
    assert(path[2] == server[0]);
    if n == 1 {
        assert(server =~= seq![server[0]]);
        assert(server[0] != '?' && server[0] != '.');
    } else {
        assert(path[3] == server[1]);
    }
    assert(!is_verbatim(path));
    let s = path.skip(2);
    let p = undivided(false);
    assert forall|i: int| 0 <= i < n implies p(#[trigger] s[i]) by {
        assert(s[i] == server[i]);
    }
    assert(s[n as int] == '\\');
    lemma_span_is(s, p, n);
    let t = s.skip(n as int + 1);
    assert(t =~= share + tail);
    assert forall|i: int| 0 <= i < share.len() implies p(#[trigger] t[i]) by {
        assert(t[i] == share[i]);
    }
    if tail.len() > 0 {
        assert(t[share.len() as int] == tail[0]);
    }
    lemma_span_is(t, p, share.len());
}

/// A path is verbatim behind `\\?\`: what comes next, a drive for example, names no
/// file, and only backslashes part what comes after it.
pub proof fn law_verbatim_path_names_its_file(device: Seq<char>, dir: Seq<char>, name: Seq<char>)
    requires
        device.len() > 0 && name.len() > 0,
        device != seq!['U', 'N', 'C'],
        forall|i: int| 0 <= i < device.len() ==> #[trigger] device[i] != '/' && device[i] != '\\',
        forall|i: int| 0 <= i < name.len() ==> #[trigger] name[i] != '\\',
        name != seq!['.'] && name != seq!['.', '.'],
        dir.len() == 0 || dir[0] == '\\',
    ensures
        file_name(seq!['\\', '\\', '?', '\\'] + device + (dir + seq!['\\'] + name)) == Some(name),
{
    let head = seq!['\\', '\\', '?', '\\'];
    let tail = dir + seq!['\\'] + name;
    let path = head + device + tail;
    let n = device.len();
    assert(path[0] == '\\' && path[1] == '\\' && path[2] == '?' && path[3] == '\\');
    let rest = path.skip(4);
    assert(rest =~= device + tail);
    assert forall|i: int| 0 <= i < n implies #[trigger] rest[i] == device[i] by {}
    assert(rest[n as int] == tail[0]);
    assert(tail[0] == '\\') by {
        if dir.len() > 0 {
            assert(tail[0] == dir[0]);
        }
    }
    assert(!(rest[0] == 'U' && rest[1] == 'N' && rest[2] == 'C' && separates(rest[3]))) by {
        if rest[0] == 'U' && rest[1] == 'N' && rest[2] == 'C' && separates(rest[3]) {
            if n >= 4 {
                assert(rest[3] == device[3]);
            } else if n == 3 {
                assert(device =~= seq!['U', 'N', 'C']);
            } else {
                assert(rest[n as int] == '\\');
            }
        }
    }
    let p = undivided(true);
    assert forall|i: int| 0 <= i < n implies p(#[trigger] rest[i]) by {
        assert(rest[i] == device[i]);
    }
    lemma_span_is(rest, p, n);
    assert(prefix_len(path) == 4 + n);
    assert(path.skip(4 + n as int) =~= tail);
    let k = dir.len() + 1;
    let q = |c: char| divides(c, true);
    assert(tail[k - 1] == '\\');
    assert forall|i: int| k <= i < tail.len() implies !q(#[trigger] tail[i]) by {
        assert(tail[i] == name[i - k]);
    }
    lemma_last_at(tail, q, k);
    assert(tail.skip(k as int) =~= name);
}

/// A drive is no part of the file that a path names.
pub proof fn law_drive_is_dropped(drive: char, rest: Seq<char>)
    requires
        ('a' <= drive && drive <= 'z') || ('A' <= drive && drive <= 'Z'),
    ensures
        file_name(seq![drive, ':'] + rest) == name_in(rest, false),
{
    let path = seq![drive, ':'] + rest;
    assert(path[0] == drive && path[1] == ':');
    assert(path.skip(2) =~= rest);
}

/// A path with slashes alone, and without a drive, begins with a directory or with the
/// file itself, though it may begin with two of them.
pub proof fn law_slashes_begin_no_share(path: Seq<char>)
    requires
        !path.contains('\\'),
        path.len() < 2 || path[1] != ':',
    ensures
        file_name(path) == name_in(path, false),
{
    assert(path.len() > 0 ==> path.contains(path[0]));
    assert(path.skip(0) =~= path);
}

/// A share in a verbatim path names no file, and behind it the last component does.
pub proof fn law_verbatim_share_is_no_file(
    server: Seq<char>,
    share: Seq<char>,
    name: Seq<char>,
)
    requires
        server.len() > 0 && share.len() > 0 && name.len() > 0,
        forall|i: int| 0 <= i < server.len() ==> #[trigger] server[i] != '\\',
        forall|i: int| 0 <= i < share.len() ==> #[trigger] share[i] != '\\',
        forall|i: int| 0 <= i < name.len() ==> #[trigger] name[i] != '\\',
        name != seq!['.'] && name != seq!['.', '.'],
    ensures
        ({
            let head = seq!['\\', '\\', '?', '\\', 'U', 'N', 'C', '\\'];
            file_name(head + server + seq!['\\'] + share + seq!['\\'] + name) == Some(name)
        }),
{
    let head = seq!['\\', '\\', '?', '\\', 'U', 'N', 'C', '\\'];
    let path = head + server + seq!['\\'] + share + seq!['\\'] + name;
    let p = undivided(true);
    let n = server.len();
    let m = share.len();
    assert(path[0] == '\\' && path[1] == '\\' && path[2] == '?' && path[3] == '\\');
    assert(path.skip(4)[0] == 'U' && path.skip(4)[1] == 'N' && path.skip(4)[2] == 'C');
    assert(path.skip(4)[3] == '\\');
    let s = path.skip(8);
    assert forall|i: int| 0 <= i < n implies p(#[trigger] s[i]) by {
        assert(s[i] == server[i]);
    }
    assert(s[n as int] == '\\');
    lemma_span_is(s, p, n);
    let t = s.skip(n as int + 1);
    assert forall|i: int| 0 <= i < m implies p(#[trigger] t[i]) by {
        assert(t[i] == share[i]);
    }
    assert(t[m as int] == '\\');
    lemma_span_is(t, p, m);
    let rest = seq!['\\'] + name;
    assert(path.skip(8 + n + 1 + m as int) =~= rest);
    let q = |c: char| divides(c, true);
    assert forall|i: int| 1 <= i < rest.len() implies !q(#[trigger] rest[i]) by {
        assert(rest[i] == name[i - 1]);
    }
    lemma_last_at(rest, q, 1);
    assert(rest.skip(1) =~= name);
}

/// A shell runs the program it was made for, in the way of its family.
pub proof fn law_shell_runs_its_program(shell: Shell, program: Seq<char>)
    requires
        is_shell_of(shell, program),
    ensures
        shell.program@ == program,
        shell.kind == kind_of(program),
        texts(shell.args@) == flags_of(shell.kind),
{
}

} // verus!
