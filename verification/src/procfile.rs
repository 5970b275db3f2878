//! Procfiles, which name the processes and their commands, and files of
//! environment variables.

use vstd::prelude::*;
use crate::color::{color_of_index, Color};
use crate::name_map::NameMap;
use crate::output::get_process_color;
use crate::text::{
    byte_len, byte_len_of, char_count, chars_of, decimal, digit, is_white, is_whitespace,
    lemma_span, lemma_span_is, lines, other_than, parted, push_decimal, span, split_lines,
    split_once, starts_with_char, string_of, texts, trim, trimmed, white,
};
use crate::text_laws::{law_parted_at_first, law_parted_gives_parts_back};
use crate::types::{ProcessError, ProcessInfo, ProcessStatus};

verus! {

/// What a Procfile says: the processes in the order of their lines, the colour
/// of each, and the length of the longest name.
#[derive(Debug)]
pub struct ProcfileData {
    pub processes: NameMap<ProcessInfo>,
    pub colors: NameMap<Color>,
    pub max_name_length: usize,
}

/// Whether `c` is a word character: whether `\w` of `regex` matches it.
pub uninterp spec fn word_char(c: char) -> bool;

/// Whether an ASCII character is a letter, a digit or the underscore.
pub open spec fn ascii_word(c: char) -> bool {
    ('a' <= c && c <= 'z') || ('A' <= c && c <= 'Z') || ('0' <= c && c <= '9') || c == '_'
}

/// Whether the regular expression `^\w$` matches `c`, by `regex::Regex::new`
/// and `Regex::is_match`. In ASCII the word characters are the letters, the
/// digits and the underscore.
#[verifier::external_body]
fn is_word(c: char) -> (r: bool)
    ensures
        r == word_char(c),
        (c as u32) < 0x80 ==> r == ascii_word(c),
{
    regex::Regex::new(r"^\w$").expect("Valid regex pattern").is_match(&c.to_string())
}

/// The predicate that holds of word characters.
pub open spec fn word() -> spec_fn(char) -> bool {
    |c: char| word_char(c)
}

/// The name and the command of a line that begins with `k` word characters: the
/// name, a colon, white space, and the command, which is the rest.
pub open spec fn definition_at(line: Seq<char>, k: nat) -> Option<(Seq<char>, Seq<char>)> {
    let rest = line.skip(k as int + 1);
    let gap = span(rest, white());
    let command = rest.skip(gap as int);
    if k == 0 || k >= line.len() || line[k as int] != ':' || gap == 0 || command.contains('\n') {
        None
    } else {
        Some((line.take(k as int), command))
    }
}

/// The name and the command that a line defines.
pub open spec fn definition(line: Seq<char>) -> Option<(Seq<char>, Seq<char>)> {
    definition_at(line, span(line, word()))
}

/// The name and the command of a line that begins with `name_len` word
/// characters.
pub fn split_definition(line: &str, name_len: usize) -> (r: Option<(String, String)>)
    requires
        name_len <= line@.len(),
    ensures
        match r {
            Some(d) => definition_at(line@, name_len as nat) == Some((d.0@, d.1@)),
            None => definition_at(line@, name_len as nat) is None,
        },
{
    let v = chars_of(line);
    let k: usize = name_len;
    if k == 0 || k == v.len() || v[k] != ':' {
        return None;
    }
    let ghost rest = line@.skip(k + 1);
    let mut g: usize = k + 1;
    while g < v.len() && is_whitespace(v[g])
        invariant
            k + 1 <= g <= v.len(),
            forall|j: int| k + 1 <= j < g ==> is_white(#[trigger] v@[j]),
        decreases v.len() - g,
    {
        g += 1;
    }
    proof {
        lemma_span_is(rest, white(), (g - k - 1) as nat);
    }
    let ghost command = rest.skip(g - k - 1);
    assert(command =~= v@.skip(g as int));
    let mut i: usize = g;
    while i < v.len() && v[i] != '\n'
        invariant
            g <= i <= v.len(),
            forall|j: int| g <= j < i ==> #[trigger] v@[j] != '\n',
        decreases v.len() - i,
    {
        i += 1;
    }
    if i < v.len() {
        assert(command[i - g] == '\n');
        return None;
    }
    assert(!command.contains('\n')) by {
        if command.contains('\n') {
            let j = choose|j: int| 0 <= j < command.len() && command[j] == '\n';
            assert(v@[g + j] == '\n');
        }
    }
    if g == k + 1 {
        return None;
    }
    let name = string_of(&v, 0, k);
    let text = string_of(&v, g, v.len());
    assert(name@ =~= line@.take(k as int));
    assert(text@ =~= command);
    Some((name, text))
}

/// Whether the ASCII characters of a line are told apart as far as its name goes,
/// with the character behind it: the word characters are the letters, the digits
/// and the underscore.
pub open spec fn knows_ascii(line: Seq<char>) -> bool {
    forall|i: int|
        0 <= i <= span(line, word()) && i < line.len() && (#[trigger] line[i] as u32) < 0x80
            ==> word_char(line[i]) == ascii_word(line[i])
}

/// Whether that holds of all lines up to the first that defines no process.
pub open spec fn scanned(lines: Seq<Seq<char>>) -> bool {
    forall|i: int|
        0 <= i < lines.len() && (forall|j: int| 0 <= j < i ==> definition(lines[j]) is Some)
            ==> knows_ascii(#[trigger] lines[i])
}

/// The number of word characters that a line begins with. A dot is none.
fn word_len(line: &str) -> (k: usize)
    ensures
        k <= line@.len(),
        k == span(line@, word()),
        knows_ascii(line@),
        forall|j: int| 0 <= j < k ==> #[trigger] line@[j] != '.',
{
    let v = chars_of(line);
    let mut k: usize = 0;
    while k < v.len() && is_word(v[k])
        invariant
            k <= v.len(),
            forall|j: int| 0 <= j < k ==> word_char(#[trigger] v@[j]) && v@[j] != '.',
            forall|j: int|
                0 <= j < k && (#[trigger] v@[j] as u32) < 0x80 ==> ascii_word(v@[j]),
        decreases v.len() - k,
    {
        k += 1;
    }
    proof {
        if k < v.len() {
            assert(!word_char(v@[k as int]));
            assert((v@[k as int] as u32) < 0x80 ==> !ascii_word(v@[k as int]));
        }
        lemma_span_is(line@, word(), k as nat);
    }
    k
}

/// The name and the command that a line defines.
pub fn parse_definition(line: &str) -> (r: Option<(String, String)>)
    ensures
        match r {
            Some(d) => definition(line@) == Some((d.0@, d.1@)) && !d.0@.contains('.'),
            None => definition(line@) is None,
        },
        knows_ascii(line@),
{
    let k = word_len(line);
    let r = split_definition(line, k);
    proof {
        let name = line@.take(k as int);
        if name.contains('.') {
            let j = choose|j: int| 0 <= j < name.len() && name[j] == '.';
            assert(line@[j] == '.');
        }
    }
    r
}

/// The lines that say something: without the white space around them, and
/// without blank lines and comments, which begin with `#`.
pub open spec fn entries(all: Seq<Seq<char>>) -> Seq<Seq<char>>
    decreases all.len(),
{
    if all.len() == 0 {
        seq![]
    } else {
        let line = trimmed(all.last());
        if line.len() == 0 || line[0] == '#' {
            entries(all.drop_last())
        } else {
            entries(all.drop_last()).push(line)
        }
    }
}

/// The lines of a text that say something.
fn entry_lines(content: &str) -> (r: Vec<String>)
    ensures
        texts(r@) == entries(lines(content@)),
{
    let all = split_lines(content);
    let mut out: Vec<String> = Vec::new();
    let mut i: usize = 0;
    assert(texts(all@).take(0) =~= seq![]);
    assert(texts(out@) =~= seq![]);
    while i < all.len()
        invariant
            i <= all.len(),
            texts(out@) == entries(texts(all@).take(i as int)),
        decreases all.len() - i,
    {
        let ghost before = texts(out@);
        assert(texts(all@).take(i + 1).drop_last() =~= texts(all@).take(i as int));
        let line = trim(all[i].as_str());
        if char_count(line.as_str()) > 0 && !starts_with_char(line.as_str(), '#') {
            out.push(line);
            assert(texts(out@) =~= before.push(line@));
        }
        i += 1;
    }
    assert(texts(all@).take(i as int) =~= texts(all@));
    out
}

/// How often `x` occurs in `s`.
pub open spec fn occurrences(s: Seq<Seq<char>>, x: Seq<char>) -> nat
    decreases s.len(),
{
    if s.len() == 0 {
        0
    } else if s.last() == x {
        occurrences(s.drop_last(), x) + 1
    } else {
        occurrences(s.drop_last(), x)
    }
}

/// A name that is the `n`th of its kind: the first keeps the name, the others
/// have their number behind it.
pub open spec fn numbered(base: Seq<char>, n: nat) -> Seq<char> {
    if n == 1 {
        base
    } else {
        base + "."@ + decimal(n)
    }
}

/// The names and commands of a list.
pub open spec fn pair_views(v: Seq<(String, String)>) -> Seq<(Seq<char>, Seq<char>)> {
    Seq::new(v.len(), |i: int| (v[i].0@, v[i].1@))
}

/// The names and commands that the lines define.
pub open spec fn definitions(lines: Seq<Seq<char>>) -> Seq<(Seq<char>, Seq<char>)> {
    Seq::new(lines.len(), |i: int| definition(lines[i]).unwrap())
}

/// The names that are asked for.
pub open spec fn bases(defs: Seq<(Seq<char>, Seq<char>)>) -> Seq<Seq<char>> {
    Seq::new(defs.len(), |i: int| defs[i].0)
}

/// The name of process `i`.
pub open spec fn name_at(defs: Seq<(Seq<char>, Seq<char>)>, i: int) -> Seq<char> {
    numbered(bases(defs)[i], occurrences(bases(defs).take(i + 1), bases(defs)[i]))
}

/// The names of all processes, in order.
pub open spec fn process_names(defs: Seq<(Seq<char>, Seq<char>)>) -> Seq<Seq<char>> {
    Seq::new(defs.len(), |i: int| name_at(defs, i))
}

/// Whether `info` is a process that was never started, with the given command.
pub open spec fn is_new_process(info: ProcessInfo, command: Seq<char>) -> bool {
    &&& info.command@ == command
    &&& info.status == ProcessStatus::Stopped
    &&& info.restart_count == 0
    &&& info.last_restart is None
    &&& info.stopped_at is None
    &&& info.cumulative_runtime == 0
    &&& info.exit_code is None
}

/// The length of the longest of the names, in bytes.
pub open spec fn longest(names: Seq<Seq<char>>) -> nat
    decreases names.len(),
{
    if names.len() == 0 {
        0
    } else {
        let n = byte_len(names.last());
        let m = longest(names.drop_last());
        if n > m {
            n
        } else {
            m
        }
    }
}

/// Whether `data` holds the given names and commands: one process for each, with
/// the colours in turn.
pub open spec fn describes(data: ProcfileData, defs: Seq<(Seq<char>, Seq<char>)>) -> bool {
    let names = process_names(defs);
    &&& data.processes.names() == names
    &&& data.colors.names() == names
    &&& forall|i: int|
        0 <= i < names.len() ==> {
            &&& data.processes@.contains_key(#[trigger] names[i])
            &&& is_new_process(data.processes@[names[i]], defs[i].1)
            &&& data.colors@.contains_key(names[i])
            &&& data.colors@[names[i]] == color_of_index(i as nat)
        }
    &&& data.max_name_length == longest(names)
}

/// Whether the first line that defines no process is line `i`.
pub open spec fn first_bad(lines: Seq<Seq<char>>, i: int) -> bool {
    &&& 0 <= i < lines.len()
    &&& definition(lines[i]) is None
    &&& forall|j: int| 0 <= j < i ==> definition(#[trigger] lines[j]) is Some
}

/// Whether every line defines a process.
pub open spec fn all_define(lines: Seq<Seq<char>>) -> bool {
    forall|j: int| 0 <= j < lines.len() ==> definition(#[trigger] lines[j]) is Some
}

proof fn lemma_occurrences(s: Seq<Seq<char>>, x: Seq<char>, i: int, j: int)
    requires
        0 <= i <= j <= s.len(),
    ensures
        occurrences(s.take(i), x) <= occurrences(s.take(j), x) <= j,
        i < j && s[j - 1] == x ==> occurrences(s.take(i), x) < occurrences(s.take(j), x),
    decreases j,
{
    if i < j {
        lemma_occurrences(s, x, i, j - 1);
        assert(s.take(j).drop_last() =~= s.take(j - 1));
    } else if i > 0 {
        lemma_occurrences(s, x, i - 1, i - 1);
        assert(s.take(j).drop_last() =~= s.take(j - 1));
    }
}

proof fn lemma_decimal_digits(n: nat)
    ensures
        decimal(n).len() > 0,
        forall|i: int|
            0 <= i < decimal(n).len() ==> 48 <= (#[trigger] decimal(n)[i]) as u32 <= 57,
    decreases n,
{
    if n >= 10 {
        lemma_decimal_digits(n / 10);
    }
}

proof fn lemma_decimal_injective(m: nat, n: nat)
    requires
        decimal(m) == decimal(n),
    ensures
        m == n,
    decreases m,
{
    lemma_decimal_digits(m / 10);
    lemma_decimal_digits(n / 10);
    assert(decimal(m).last() == digit(m % 10));
    assert(decimal(n).last() == digit(n % 10));
    assert(m % 10 == n % 10);
    if m >= 10 && n >= 10 {
        assert(decimal(m / 10) =~= decimal(m).drop_last());
        assert(decimal(n / 10) =~= decimal(n).drop_last());
        lemma_decimal_injective(m / 10, n / 10);
    }
}

/// Numbering keeps names apart: what two numbered names without a dot have in
/// common shows in the result.
proof fn lemma_numbered_injective(a: Seq<char>, m: nat, b: Seq<char>, n: nat)
    requires
        !a.contains('.'),
        !b.contains('.'),
        numbered(a, m) == numbered(b, n),
    ensures
        a == b,
        m == n,
{
    reveal_strlit(".");
    let x = numbered(a, m);
    let y = numbered(b, n);
    let p = other_than('.');
    assert forall|i: int| 0 <= i < a.len() implies p(#[trigger] x[i]) by {
        assert(x[i] == a[i]);
        assert(a.contains(a[i]));
    }
    assert forall|i: int| 0 <= i < b.len() implies p(#[trigger] y[i]) by {
        assert(y[i] == b[i]);
        assert(b.contains(b[i]));
    }
    lemma_span_is(x, p, a.len());
    lemma_span_is(y, p, b.len());
    assert(a =~= x.take(a.len() as int));
    assert(b =~= y.take(b.len() as int));
    if m != 1 && n != 1 {
        assert(x.skip(a.len() as int + 1) =~= decimal(m));
        assert(y.skip(b.len() as int + 1) =~= decimal(n));
        lemma_decimal_injective(m, n);
    }
}

/// No two processes have the same name, though their lines may ask for the same
/// one.
pub proof fn law_names_are_distinct(defs: Seq<(Seq<char>, Seq<char>)>, i: int, j: int)
    requires
        0 <= i < j < defs.len(),
        !defs[i].0.contains('.'),
        !defs[j].0.contains('.'),
    ensures
        name_at(defs, i) != name_at(defs, j),
{
    let b = bases(defs);
    if name_at(defs, i) == name_at(defs, j) {
        lemma_numbered_injective(
            b[i],
            occurrences(b.take(i + 1), b[i]),
            b[j],
            occurrences(b.take(j + 1), b[j]),
        );
        lemma_occurrences(b, b[j], i + 1, j + 1);
    }
}

/// The processes of a Procfile: one for each line that says something, in
/// order. `content` is the text of the file, or the reason why it could not be
/// read.
pub fn parse_procfile(procfile_path: &str, content: Result<String, String>) -> (r: Result<
    ProcfileData,
    ProcessError,
>)
    ensures
        content matches Err(source) ==> r == Err::<ProcfileData, _>(
            ProcessError::ProcfileRead { path: r->Err_0->path, source },
        ) && r->Err_0->path@ == procfile_path@,
        content matches Ok(text) ==> scanned(entries(lines(text@))),
        content matches Ok(text) ==> {
            let found = entries(lines(text@));
            match r {
                Ok(data) => found.len() > 0 && all_define(found) && describes(
                    data,
                    definitions(found),
                ) && data.processes.names().no_duplicates(),
                Err(ProcessError::NoProcesses) => found.len() == 0,
                Err(ProcessError::InvalidFormat { line }) => exists|i: int| #[trigger]
                    first_bad(found, i) && line@ == found[i],
                Err(_) => false,
            }
        },
{
    match content {
        Ok(text) => parse_entries(&entry_lines(text.as_str())),
        Err(source) => Err(ProcessError::ProcfileRead { path: procfile_path.to_owned(), source }),
    }
}

/// The processes that the given lines define.
fn parse_entries(found: &Vec<String>) -> (r: Result<ProcfileData, ProcessError>)
    ensures
        match r {
            Ok(data) => found.len() > 0 && all_define(texts(found@)) && describes(
                data,
                definitions(texts(found@)),
            ) && data.processes.names().no_duplicates(),
            Err(ProcessError::NoProcesses) => found.len() == 0,
            Err(ProcessError::InvalidFormat { line }) => exists|i: int| #[trigger]
                first_bad(texts(found@), i) && line@ == texts(found@)[i],
            Err(_) => false,
        },
        scanned(texts(found@)),
{
    let ghost all = texts(found@);
    let mut defs: Vec<(String, String)> = Vec::new();
    let mut i: usize = 0;
    while i < found.len()
        invariant
            i <= found.len(),
            all == texts(found@),
            defs.len() == i,
            forall|j: int|
                0 <= j < i ==> definition(#[trigger] all[j]) == Some(
                    (defs@[j].0@, defs@[j].1@),
                ) && !defs@[j].0@.contains('.') && knows_ascii(all[j]),
        decreases found.len() - i,
    {
        assert(all[i as int] == found@[i as int]@);
        match parse_definition(found[i].as_str()) {
            Some(d) => {
                defs.push(d);
            },
            None => {
                assert(first_bad(all, i as int));
                assert(scanned(all)) by {
                    assert forall|k: int|
                        0 <= k < all.len() && (forall|j: int|
                            0 <= j < k ==> definition(all[j]) is Some) implies knows_ascii(
                        #[trigger] all[k],
                    ) by {
                        if k > i {
                            assert(definition(all[i as int]) is Some);
                        } else if k < i {
                            assert(definition(all[k]) is Some);
                        }
                    }
                }
                return Err(ProcessError::InvalidFormat { line: found[i].clone() });
            },
        }
        i += 1;
    }
    assert(scanned(all)) by {
        assert forall|k: int| 0 <= k < all.len() implies knows_ascii(#[trigger] all[k]) by {
            assert(definition(all[k]) is Some);
        }
    }
    if defs.len() == 0 {
        return Err(ProcessError::NoProcesses);
    }
    proof {
        assert(all.len() == found.len());
        assert(pair_views(defs@) =~= definitions(all)) by {
            assert forall|j: int| 0 <= j < defs.len() implies pair_views(defs@)[j] == definitions(
                all,
            )[j] by {
                assert(definition(all[j]) is Some);
            }
        }
        assert forall|j: int| 0 <= j < defs.len() implies !(#[trigger] defs@[j]).0@.contains('.') by {
            assert(definition(all[j]) is Some);
        }
    }
    Ok(build_procfile(&defs))
}

/// The processes with the given names and commands. A name that comes again gets
/// a number.
pub fn build_procfile(defs: &Vec<(String, String)>) -> (data: ProcfileData)
    requires
        forall|i: int| 0 <= i < defs.len() ==> !(#[trigger] defs@[i]).0@.contains('.'),
    ensures
        describes(data, pair_views(defs@)),
        data.processes.names().no_duplicates(),
{
    let ghost all = pair_views(defs@);
    let mut processes: NameMap<ProcessInfo> = NameMap::new();
    let mut colors: NameMap<Color> = NameMap::new();
    let mut counts: NameMap<usize> = NameMap::new();
    let mut max_name_length: usize = 0;
    let mut i: usize = 0;
    assert(process_names(all).take(0) =~= Seq::<Seq<char>>::empty());
    assert(bases(all).take(0) =~= Seq::<Seq<char>>::empty());
    while i < defs.len()
        invariant
            i <= defs.len(),
            all == pair_views(defs@),
            forall|j: int| 0 <= j < defs.len() ==> !(#[trigger] defs@[j]).0@.contains('.'),
            processes.names() == process_names(all).take(i as int),
            colors.names() == process_names(all).take(i as int),
            forall|j: int|
                0 <= j < i ==> {
                    &&& processes@.contains_key(#[trigger] name_at(all, j))
                    &&& is_new_process(processes@[name_at(all, j)], all[j].1)
                    &&& colors@.contains_key(name_at(all, j))
                    &&& colors@[name_at(all, j)] == color_of_index(j as nat)
                },
            max_name_length == longest(process_names(all).take(i as int)),
            forall|b: Seq<char>|
                if #[trigger] counts@.contains_key(b) {
                    counts@[b] == occurrences(bases(all).take(i as int), b)
                } else {
                    occurrences(bases(all).take(i as int), b) == 0
                },
        decreases defs.len() - i,
    {
        let base = &defs[i].0;
        let seen: usize = match counts.get(base.as_str()) {
            Some(n) => *n,
            None => 0,
        };
        let ghost b = bases(all);
        proof {
            assert(b[i as int] == base@);
            assert(seen == occurrences(b.take(i as int), base@)) by {
                assert(counts@.contains_key(base@) || !counts@.contains_key(base@));
            }
            lemma_occurrences(b, base@, i as int, i as int);
            assert(b.take(i + 1).drop_last() =~= b.take(i as int));
        }
        let count: usize = seen + 1;
        let mut name = base.clone();
        if count != 1 {
            name.append(".");
            push_decimal(&mut name, count as u64);
        }
        assert(name@ == name_at(all, i as int));
        proof {
            NameMap::lemma_listed(processes, name@);
            NameMap::lemma_listed(colors, name@);
            assert(!all[i as int].0.contains('.')) by {
                assert(!defs@[i as int].0@.contains('.'));
            }
            assert forall|j: int| 0 <= j < i implies name_at(all, j) != name@ by {
                assert(!defs@[j].0@.contains('.'));
                law_names_are_distinct(all, j, i as int);
            }
            assert(!process_names(all).take(i as int).contains(name@)) by {
                let names = process_names(all).take(i as int);
                if names.contains(name@) {
                    let j = choose|j: int| 0 <= j < names.len() && names[j] == name@;
                    assert(names[j] == name_at(all, j));
                }
            }
        }
        let len: usize = byte_len_of(name.as_str());
        if len > max_name_length {
            max_name_length = len;
        }
        let info = ProcessInfo {
            command: defs[i].1.clone(),
            status: ProcessStatus::Stopped,
            restart_count: 0,
            last_restart: None,
            stopped_at: None,
            cumulative_runtime: 0,
            exit_code: None,
        };
        let ghost key = name@;
        processes.insert(name.clone(), info);
        colors.insert(name, get_process_color(i));
        let ghost base_text = base@;
        counts.insert(base.clone(), count);
        i += 1;
        proof {
            assert(process_names(all).take(i as int) =~= process_names(all).take(i - 1).push(key));
            assert(process_names(all).take(i as int).drop_last() =~= process_names(all).take(
                i - 1,
            ));
            assert(processes.names() =~= process_names(all).take(i as int));
            assert(colors.names() =~= process_names(all).take(i as int));
            assert forall|x: Seq<char>|
                if #[trigger] counts@.contains_key(x) {
                    counts@[x] == occurrences(b.take(i as int), x)
                } else {
                    occurrences(b.take(i as int), x) == 0
                } by {
                assert(b.take(i as int).last() == base_text);
            }
        }
    }
    proof {
        assert(process_names(all).take(i as int) =~= process_names(all));
        assert(all.len() == defs.len());
        assert forall|j: int| 0 <= j < process_names(all).len() implies ({
            &&& processes@.contains_key(#[trigger] process_names(all)[j])
            &&& is_new_process(processes@[process_names(all)[j]], all[j].1)
            &&& colors@.contains_key(process_names(all)[j])
            &&& colors@[process_names(all)[j]] == color_of_index(j as nat)
        }) by {
            assert(process_names(all)[j] == name_at(all, j));
        }
        let names = process_names(all);
        assert forall|x: int, y: int| 0 <= x < y < names.len() implies names[x] != names[y] by {
            assert(!defs@[x].0@.contains('.') && !defs@[y].0@.contains('.'));
            law_names_are_distinct(all, x, y);
        }
        assert(names.no_duplicates());
    }
    ProcfileData { processes, colors, max_name_length }
}

/// The variables of an environment, with their values.
pub open spec fn env_view(env: NameMap<String>) -> Map<Seq<char>, Seq<char>> {
    env@.map_values(|v: String| v@)
}

/// `env` after the assignments in the given lines. Lines without `=` assign
/// nothing.
pub open spec fn assigned(lines: Seq<Seq<char>>, env: Map<Seq<char>, Seq<char>>) -> Map<
    Seq<char>,
    Seq<char>,
>
    decreases lines.len(),
{
    if lines.len() == 0 {
        env
    } else {
        let before = assigned(lines.drop_last(), env);
        match parted(lines.last(), '=') {
            Some((key, value)) => before.insert(trimmed(key), trimmed(value)),
            None => before,
        }
    }
}

/// Adds the variables of a file to an environment. `contents` is the text of
/// the file, or the reason why it could not be read.
pub fn parse_env_file(
    path: &str,
    contents: Result<String, String>,
    env_vars: &mut NameMap<String>,
) -> (r: Result<(), ProcessError>)
    ensures
        match contents {
            Ok(text) => r is Ok && env_view(*final(env_vars)) == assigned(
                entries(lines(text@)),
                env_view(*old(env_vars)),
            ),
            Err(source) => *final(env_vars) == *old(env_vars) && r == Err::<(), _>(
                ProcessError::ProcfileRead { path: r->Err_0->path, source },
            ) && r->Err_0->path@ == path@,
        },
{
    let text = match contents {
        Ok(text) => text,
        Err(source) => {
            return Err(ProcessError::ProcfileRead { path: path.to_owned(), source });
        },
    };
    let found = entry_lines(text.as_str());
    let ghost all = texts(found@);
    let mut i: usize = 0;
    assert(all.take(0) =~= seq![]);
    while i < found.len()
        invariant
            i <= found.len(),
            all == texts(found@),
            env_view(*env_vars) == assigned(all.take(i as int), env_view(*old(env_vars))),
        decreases found.len() - i,
    {
        assert(all.take(i + 1).drop_last() =~= all.take(i as int));
        assert(all[i as int] == found@[i as int]@);
        if let Some((key, value)) = split_once(found[i].as_str(), '=') {
            let ghost before = env_view(*env_vars);
            let key = trim(key.as_str());
            let value = trim(value.as_str());
            let ghost k = key@;
            let ghost v = value@;
            env_vars.insert(key, value);
            assert(env_view(*env_vars) =~= before.insert(k, v));
        }
        i += 1;
    }
    assert(all.take(i as int) =~= all);
    Ok(())
}

/// A line that defines a process is its name, a colon, white space and its command,
/// and nothing of it is lost: put together again they are the line. The name is not
/// empty, the white space neither, and the command does not begin with any.
pub proof fn law_definition_is_the_whole_line(line: Seq<char>, k: nat)
    requires
        definition_at(line, k) is Some,
    ensures
        ({
            let (name, command) = definition_at(line, k)->0;
            exists|gap: Seq<char>|
                {
                    &&& line == #[trigger] (name + seq![':'] + gap + command)
                    &&& gap.len() > 0
                    &&& forall|i: int| 0 <= i < gap.len() ==> is_white(#[trigger] gap[i])
                    &&& name.len() == k > 0
                    &&& command.len() > 0 ==> !is_white(command[0])
                    &&& !command.contains('\n')
                }
        }),
{
    let (name, command) = definition_at(line, k)->0;
    let rest = line.skip(k as int + 1);
    let n = span(rest, white());
    lemma_span(rest, white());
    let gap = rest.take(n as int);
    assert(line =~= name + seq![':'] + gap + command);
    assert forall|i: int| 0 <= i < gap.len() implies is_white(#[trigger] gap[i]) by {
        assert(white()(rest[i]));
    }
    if command.len() > 0 {
        assert(!white()(rest[n as int]));
    }
}

/// A name, a colon, white space and a command of one line define that process: the
/// name and the command come out as they went in.
pub proof fn law_written_definition_is_read(
    name: Seq<char>,
    gap: Seq<char>,
    command: Seq<char>,
)
    requires
        name.len() > 0,
        gap.len() > 0,
        forall|i: int| 0 <= i < gap.len() ==> is_white(#[trigger] gap[i]),
        command.len() > 0 ==> !is_white(command[0]),
        !command.contains('\n'),
    ensures
        definition_at(name + seq![':'] + gap + command, name.len()) == Some((name, command)),
        (forall|i: int| 0 <= i < name.len() ==> word_char(#[trigger] name[i])) && !word_char(':')
            ==> definition(name + seq![':'] + gap + command) == Some((name, command)),
{
    let line = name + seq![':'] + gap + command;
    let k = name.len();
    let rest = line.skip(k as int + 1);
    assert(rest =~= gap + command);
    assert forall|i: int| 0 <= i < gap.len() implies white()(#[trigger] rest[i]) by {
        assert(rest[i] == gap[i]);
    }
    if command.len() > 0 {
        assert(rest[gap.len() as int] == command[0]);
    }
    lemma_span_is(rest, white(), gap.len());
    assert(rest.skip(gap.len() as int) =~= command);
    assert(line.take(k as int) =~= name);
    assert(line[k as int] == ':');
    if (forall|i: int| 0 <= i < name.len() ==> word_char(#[trigger] name[i])) && !word_char(':') {
        assert forall|i: int| 0 <= i < k implies word()(#[trigger] line[i]) by {
            assert(line[i] == name[i]);
        }
        lemma_span_is(line, word(), k);
    }
}

/// The name of a process has word characters only.
pub proof fn law_names_are_words(line: Seq<char>, i: int)
    requires
        definition(line) is Some,
        0 <= i < definition(line).unwrap().0.len(),
    ensures
        word_char(definition(line).unwrap().0[i]),
{
    lemma_span(line, word());
    assert(word()(line[i]));
}

/// A line that is blank or begins with `#`, white space aside, says nothing. Every
/// other line says what it holds without the white space around it, after the lines
/// before it.
pub proof fn law_comments_and_blanks_say_nothing(all: Seq<Seq<char>>, line: Seq<char>)
    ensures
        entries(Seq::<Seq<char>>::empty()).len() == 0,
        trimmed(line).len() == 0 ==> entries(all.push(line)) == entries(all),
        trimmed(line).len() > 0 && trimmed(line)[0] == '#' ==> entries(all.push(line)) == entries(
            all,
        ),
        trimmed(line).len() > 0 && trimmed(line)[0] != '#' ==> entries(all.push(line)) == entries(
            all,
        ).push(trimmed(line)),
{
    assert(all.push(line).drop_last() =~= all);
}

/// What lines say does not depend on the lines around them.
pub proof fn law_entries_are_read_one_by_one(a: Seq<Seq<char>>, b: Seq<Seq<char>>)
    ensures
        entries(a + b) == entries(a) + entries(b),
    decreases b.len(),
{
    if b.len() == 0 {
        assert(a + b =~= a);
        assert(entries(a) + entries(b) =~= entries(a));
    } else {
        assert((a + b).drop_last() =~= a + b.drop_last());
        law_entries_are_read_one_by_one(a, b.drop_last());
        assert(entries(a + b) =~= entries(a) + entries(b));
    }
}

/// The first process that asks for a name gets it. The next one that asks for it
/// gets a dot and the number 2 behind it, and each one after that the number after
/// the one before.
pub proof fn law_names_are_numbered_in_turn(defs: Seq<(Seq<char>, Seq<char>)>, i: int, j: int, n: nat)
    requires
        0 <= i < j < defs.len(),
        defs[i].0 == defs[j].0,
        forall|k: int| i < k < j ==> (#[trigger] defs[k]).0 != defs[j].0,
        !defs[i].0.contains('.'),
    ensures
        name_at(defs, i) == defs[i].0 ==> name_at(defs, j) == defs[j].0 + seq!['.', '2'],
        name_at(defs, i) == defs[i].0 + seq!['.'] + decimal(n) && n > 1 ==> name_at(defs, j)
            == defs[j].0 + seq!['.'] + decimal(n + 1),
{
    let b = bases(defs);
    let base = b[i];
    reveal_strlit(".");
    assert("."@ =~= seq!['.']);
    let m = occurrences(b.take(i + 1), base);
    lemma_occurrences(b, base, i, i + 1);
    assert(m > 0);
    lemma_no_occurrence(b, base, i + 1, j);
    assert(b.take(j + 1).drop_last() =~= b.take(j));
    assert(occurrences(b.take(j + 1), base) == m + 1);
    if name_at(defs, i) == base {
        assert(numbered(base, 1) == base);
        lemma_numbered_injective(base, m, base, 1);
        assert(decimal(2) =~= seq!['2']);
        assert(name_at(defs, j) =~= defs[j].0 + seq!['.', '2']);
    }
    if name_at(defs, i) == base + seq!['.'] + decimal(n) && n > 1 {
        lemma_numbered_injective(base, m, base, n);
    }
}

/// The first process that asks for a name gets it as it is.
pub proof fn law_first_of_its_name_keeps_it(defs: Seq<(Seq<char>, Seq<char>)>, i: int)
    requires
        0 <= i < defs.len(),
        forall|k: int| 0 <= k < i ==> (#[trigger] defs[k]).0 != defs[i].0,
    ensures
        name_at(defs, i) == defs[i].0,
{
    let b = bases(defs);
    lemma_no_occurrence(b, b[i], 0, i);
    assert(b.take(0) =~= seq![]);
    assert(b.take(i + 1).drop_last() =~= b.take(i));
}

proof fn lemma_no_occurrence(s: Seq<Seq<char>>, x: Seq<char>, i: int, j: int)
    requires
        0 <= i <= j <= s.len(),
        forall|k: int| i <= k < j ==> #[trigger] s[k] != x,
    ensures
        occurrences(s.take(j), x) == occurrences(s.take(i), x),
    decreases j - i,
{
    if i < j {
        lemma_no_occurrence(s, x, i, j - 1);
        assert(s.take(j).drop_last() =~= s.take(j - 1));
        assert(s.take(j).last() == s[j - 1]);
    }
}

/// The column of names holds every name, and is as wide as one of them.
pub proof fn law_longest_name_is_one_of_them(names: Seq<Seq<char>>)
    ensures
        forall|i: int| 0 <= i < names.len() ==> byte_len(#[trigger] names[i]) <= longest(names),
        names.len() > 0 ==> exists|i: int|
            0 <= i < names.len() && byte_len(#[trigger] names[i]) == longest(names),
    decreases names.len(),
{
    if names.len() > 0 {
        let init = names.drop_last();
        law_longest_name_is_one_of_them(init);
        assert forall|i: int| 0 <= i < names.len() implies byte_len(#[trigger] names[i])
            <= longest(names) by {
            if i < init.len() {
                assert(init[i] == names[i]);
            }
        }
        let last = names.len() - 1;
        if byte_len(names[last]) != longest(names) {
            let i = choose|i: int|
                0 <= i < init.len() && byte_len(#[trigger] init[i]) == longest(init);
            assert(names[i] == init[i]);
        }
    }
}

/// A Procfile has a process for each line that says something, in their order. Each
/// has the command of its line and has never run.
pub proof fn law_processes_come_from_lines(
    data: ProcfileData,
    lines: Seq<Seq<char>>,
    i: int,
)
    requires
        all_define(lines),
        describes(data, definitions(lines)),
        0 <= i < lines.len(),
    ensures
        data.processes.names().len() == lines.len(),
        data.colors.names() == data.processes.names(),
        ({
            let name = data.processes.names()[i];
            let info = data.processes@[name];
            &&& data.processes@.contains_key(name)
            &&& info.command@ == definition(lines[i]).unwrap().1
            &&& definition(lines[i]).unwrap().0.is_prefix_of(name)
            &&& info.status == ProcessStatus::Stopped
            &&& info.restart_count == 0 && info.cumulative_runtime == 0
            &&& info.last_restart is None && info.stopped_at is None && info.exit_code is None
            &&& data.colors@[name] == color_of_index(i as nat)
            &&& byte_len(name) <= data.max_name_length
        }),
{
    let defs = definitions(lines);
    let names = process_names(defs);
    let base = definition(lines[i]).unwrap().0;
    assert(names[i] == name_at(defs, i));
    law_longest_name_is_one_of_them(names);
    assert(base =~= names[i].take(base.len() as int));
}

/// A line with `=` gives the variable before the first `=` the value behind it, both
/// without white space around them, over any value that it had. No other variable
/// changes, and a line without `=` changes none.
pub proof fn law_assignment_sets_one_variable(
    lines: Seq<Seq<char>>,
    env: Map<Seq<char>, Seq<char>>,
    key: Seq<char>,
    value: Seq<char>,
    other: Seq<char>,
)
    requires
        !key.contains('='),
    ensures
        ({
            let before = assigned(lines, env);
            let after = assigned(lines.push(key + seq!['='] + value), env);
            &&& after.contains_key(trimmed(key)) && after[trimmed(key)] == trimmed(value)
            &&& other != trimmed(key) ==> after.contains_key(other) == before.contains_key(other)
                && after[other] == before[other]
        }),
        assigned(lines.push(key), env) == assigned(lines, env),
        assigned(Seq::<Seq<char>>::empty(), env) == env,
{
    let line = key + seq!['='] + value;
    law_parted_gives_parts_back(key, '=', value);
    law_parted_at_first(key, '=');
    assert(lines.push(line).drop_last() =~= lines);
    assert(lines.push(key).drop_last() =~= lines);
}

/// A name of ASCII letters, digits and underscores is read as it is written, up to the
/// colon behind it. A line whose name ends with another ASCII character is refused.
pub proof fn law_ascii_names_are_read(line: Seq<char>, name: Seq<char>, rest: Seq<char>)
    requires
        knows_ascii(line),
        line == name + rest,
        name.len() > 0,
        forall|i: int|
            0 <= i < name.len() ==> {
                let c = #[trigger] name[i];
                ('a' <= c && c <= 'z') || ('A' <= c && c <= 'Z') || ('0' <= c && c <= '9') || c
                    == '_'
            },
        rest.len() > 0 && (rest[0] as u32) < 0x80,
        !(('a' <= rest[0] && rest[0] <= 'z') || ('A' <= rest[0] && rest[0] <= 'Z') || ('0'
            <= rest[0] && rest[0] <= '9') || rest[0] == '_'),
    ensures
        rest[0] != ':' ==> definition(line) is None,
        rest.len() == 1 ==> definition(line) is None,
        rest.len() > 1 && !is_white(rest[1]) ==> definition(line) is None,
        rest[0] == ':' && rest.len() > 1 && is_white(rest[1]) && !rest.contains('\n')
            ==> definition(line) is Some && definition(line).unwrap().0 == name,
{
    let k = span(line, word());
    let n = name.len();
    lemma_span(line, word());
    assert(line[n as int] == rest[0]);
    if k < n {
        assert(line[k as int] == name[k as int]);
        assert(word_char(line[k as int]) == ascii_word(line[k as int]));
        assert(!word()(line[k as int]));
    }
    if k > n {
        assert(word()(line[n as int]));
        assert(word_char(line[n as int]) == ascii_word(line[n as int]));
    }
    assert(k == n);
    let behind = line.skip(n as int + 1);
    assert(behind =~= rest.skip(1));
    lemma_span(behind, white());
    if rest.len() > 1 {
        assert(behind[0] == rest[1]);
        if !is_white(rest[1]) {
            assert(!white()(behind[0]));
            lemma_span_is(behind, white(), 0);
        } else if !rest.contains('\n') {
            let gap = span(behind, white());
            assert(white()(behind[0]));
            let command = behind.skip(gap as int);
            if command.contains('\n') {
                let j = choose|j: int| 0 <= j < command.len() && command[j] == '\n';
                assert(rest[1 + gap + j] == '\n');
            }
            assert(line.take(n as int) =~= name);
        }
    }
}

/// A line that is refused is the first that defines nothing, and there is one unless
/// all lines define something.
pub proof fn law_first_bad_line_is_the_first(lines: Seq<Seq<char>>, i: int, j: int)
    requires
        first_bad(lines, i),
    ensures
        0 <= i < lines.len() && definition(lines[i]) is None,
        0 <= j < i ==> definition(lines[j]) is Some,
        !all_define(lines),
        first_bad(lines, j) ==> i == j,
{
    if first_bad(lines, j) {
        if i < j {
            assert(definition(lines[i]) is Some);
        } else if j < i {
            assert(definition(lines[j]) is Some);
        }
    }
}

} // verus!
