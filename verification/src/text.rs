//! Text as sequences of characters: trimming, splitting, padding and number
//! formatting, each with the value it produces stated over `Seq<char>`.

use vstd::prelude::*;
use vstd::utf8::{encode_scalar, encode_utf8};

verus! {

/// `String::push` appends the character to the end of the string.
pub assume_specification[ String::push ](s: &mut String, c: char)
    ensures
        final(s)@ == old(s)@.push(c),
;

/// The characters with the Unicode `White_Space` property.
pub open spec fn is_white(c: char) -> bool {
    let u = c as u32;
    ||| 0x9 <= u <= 0xd
    ||| u == 0x20
    ||| u == 0x85
    ||| u == 0xa0
    ||| u == 0x1680
    ||| 0x2000 <= u <= 0x200a
    ||| u == 0x2028
    ||| u == 0x2029
    ||| u == 0x202f
    ||| u == 0x205f
    ||| u == 0x3000
}

/// Whether `c` is white space, as [`is_white`] defines it.
pub fn is_whitespace(c: char) -> (r: bool)
    ensures
        r == is_white(c),
{
    let u: u32 = c as u32;
    (0x9 <= u && u <= 0xd) || u == 0x20 || u == 0x85 || u == 0xa0 || u == 0x1680 || (0x2000 <= u
        && u <= 0x200a) || u == 0x2028 || u == 0x2029 || u == 0x202f || u == 0x205f || u == 0x3000
}

/// The views of a list of strings.
pub open spec fn texts(v: Seq<String>) -> Seq<Seq<char>> {
    Seq::new(v.len(), |i: int| v[i]@)
}

/// The length of a text in bytes, as UTF-8 encodes it.
pub open spec fn byte_len(s: Seq<char>) -> nat {
    encode_utf8(s).len()
}

/// The characters of `s`, in order.
pub fn chars_of(s: &str) -> (r: Vec<char>)
    ensures
        r@ == s@,
{
    let mut r: Vec<char> = Vec::new();
    for c in it: s.chars()
        invariant
            it.seq() == s@,
            r@ == s@.take(it.index() as int),
    {
        r.push(c);
    }
    r
}

/// The text of the characters from `from` up to `to`.
pub fn string_of(chars: &Vec<char>, from: usize, to: usize) -> (r: String)
    requires
        from <= to <= chars.len(),
    ensures
        r@ == chars@.subrange(from as int, to as int),
{
    let mut r = String::new();
    let mut i: usize = from;
    while i < to
        invariant
            from <= i <= to <= chars.len(),
            r@ == chars@.subrange(from as int, i as int),
        decreases to - i,
    {
        r.push(chars[i]);
        i += 1;
    }
    r
}

/// Whether two texts are the same.
pub fn same_text(a: &str, b: &str) -> (r: bool)
    ensures
        r == (a@ == b@),
{
    a.to_owned() == b.to_owned()
}

/// The length of `s` in bytes.
pub fn byte_len_of(s: &str) -> (n: usize)
    ensures
        n == byte_len(s@),
{
    s.as_bytes().len()
}

/// The predicate that holds of white space.
pub open spec fn white() -> spec_fn(char) -> bool {
    |c: char| is_white(c)
}

/// The predicate that holds of anything but white space.
pub open spec fn not_white() -> spec_fn(char) -> bool {
    |c: char| !is_white(c)
}

/// The predicate that holds of anything but `x`.
pub open spec fn other_than(x: char) -> spec_fn(char) -> bool {
    |c: char| c != x
}

/// The length of the longest prefix of `s` whose characters all satisfy `p`.
pub open spec fn span(s: Seq<char>, p: spec_fn(char) -> bool) -> nat
    decreases s.len(),
{
    if s.len() > 0 && p(s[0]) {
        1 + span(s.skip(1), p)
    } else {
        0
    }
}

/// A span ends where its predicate first fails, or with the text.
pub proof fn lemma_span(s: Seq<char>, p: spec_fn(char) -> bool)
    ensures
        span(s, p) <= s.len(),
        forall|i: int| 0 <= i < span(s, p) ==> p(#[trigger] s[i]),
        span(s, p) < s.len() ==> !p(s[span(s, p) as int]),
    decreases s.len(),
{
    if s.len() > 0 && p(s[0]) {
        lemma_span(s.skip(1), p);
        assert forall|i: int| 0 <= i < span(s, p) implies p(#[trigger] s[i]) by {
            if i > 0 {
                assert(s.skip(1)[i - 1] == s[i]);
            }
        }
    }
}

/// Where a predicate holds up to `k` and then fails, or the text ends, the
/// span is `k`.
pub proof fn lemma_span_is(s: Seq<char>, p: spec_fn(char) -> bool, k: nat)
    requires
        k <= s.len(),
        forall|i: int| 0 <= i < k ==> p(#[trigger] s[i]),
        k < s.len() ==> !p(s[k as int]),
    ensures
        span(s, p) == k,
    decreases s.len(),
{
    if k > 0 {
        assert forall|i: int| 0 <= i < k - 1 implies p(#[trigger] s.skip(1)[i]) by {
            assert(s.skip(1)[i] == s[i + 1]);
        }
        lemma_span_is(s.skip(1), p, (k - 1) as nat);
    }
}

/// `s` without the white space it starts with.
pub open spec fn trim_start(s: Seq<char>) -> Seq<char> {
    s.skip(span(s, white()) as int)
}

/// `s` without the white space it ends with.
pub open spec fn trim_end(s: Seq<char>) -> Seq<char>
    decreases s.len(),
{
    if s.len() > 0 && is_white(s.last()) {
        trim_end(s.drop_last())
    } else {
        s
    }
}

/// `s` without the white space at either end.
pub open spec fn trimmed(s: Seq<char>) -> Seq<char> {
    trim_end(trim_start(s))
}

/// The length of the white space that `v` holds from `from` on.
fn skip_white(v: &Vec<char>, from: usize) -> (r: usize)
    requires
        from <= v.len(),
    ensures
        from <= r <= v.len(),
        r - from == span(v@.skip(from as int), white()),
{
    let mut i: usize = from;
    while i < v.len() && is_whitespace(v[i])
        invariant
            from <= i <= v.len(),
            forall|j: int| from <= j < i ==> is_white(#[trigger] v@[j]),
        decreases v.len() - i,
    {
        i += 1;
    }
    proof {
        lemma_span_is(v@.skip(from as int), white(), (i - from) as nat);
    }
    i
}

/// The end of `v[from..]` once the white space that ends it is left out.
fn cut_white(v: &Vec<char>, from: usize) -> (r: usize)
    requires
        from <= v.len(),
    ensures
        from <= r <= v.len(),
        v@.subrange(from as int, r as int) == trim_end(v@.skip(from as int)),
{
    let mut to: usize = v.len();
    assert(v@.subrange(from as int, to as int) =~= v@.skip(from as int));
    while to > from && is_whitespace(v[to - 1])
        invariant
            from <= to <= v.len(),
            trim_end(v@.subrange(from as int, to as int)) == trim_end(v@.skip(from as int)),
        decreases to,
    {
        assert(v@.subrange(from as int, to as int).drop_last() =~= v@.subrange(
            from as int,
            to - 1,
        ));
        to -= 1;
    }
    to
}

/// `s` without the white space at either end.
pub fn trim(s: &str) -> (r: String)
    ensures
        r@ == trimmed(s@),
{
    let v = chars_of(s);
    let from = skip_white(&v, 0);
    assert(v@.skip(0) =~= v@);
    let to = cut_white(&v, from);
    string_of(&v, from, to)
}

/// `s` without the white space it ends with.
pub fn trim_tail(s: &str) -> (r: String)
    ensures
        r@ == trim_end(s@),
{
    let v = chars_of(s);
    assert(v@.skip(0) =~= v@);
    let to = cut_white(&v, 0);
    string_of(&v, 0, to)
}

/// The words of `s`: its maximal runs of anything but white space.
pub open spec fn words(s: Seq<char>) -> Seq<Seq<char>>
    decreases s.len(),
{
    let t = trim_start(s);
    if t.len() == 0 {
        seq![]
    } else {
        let k = span(t, not_white());
        proof {
            lemma_span(s, white());
            lemma_span(t, not_white());
            reveal_with_fuel(span, 2);
        }
        seq![t.take(k as int)] + words(t.skip(k as int))
    }
}

/// The words of `s`.
pub fn split_words(s: &str) -> (r: Vec<String>)
    ensures
        texts(r@) == words(s@),
{
    let v = chars_of(s);
    let mut out: Vec<String> = Vec::new();
    let mut pos: usize = 0;
    assert(v@.skip(0) =~= v@);
    assert(texts(out@) =~= seq![]);
    assert(texts(out@) + words(v@.skip(0)) =~= words(s@));
    while pos < v.len()
        invariant
            pos <= v.len(),
            v@ == s@,
            texts(out@) + words(v@.skip(pos as int)) == words(s@),
        decreases v.len() - pos,
    {
        let start = skip_white(&v, pos);
        let ghost rest = v@.skip(pos as int);
        let ghost t = trim_start(rest);
        assert(t =~= v@.skip(start as int));
        let mut end: usize = start;
        while end < v.len() && !is_whitespace(v[end])
            invariant
                start <= end <= v.len(),
                forall|j: int| start <= j < end ==> !is_white(#[trigger] v@[j]),
            decreases v.len() - end,
        {
            end += 1;
        }
        proof {
            lemma_span_is(t, not_white(), (end - start) as nat);
            lemma_span(rest, white());
        }
        if start == end {
            assert(t.len() == 0) by {
                if start < v.len() {
                    assert(t[0] == v@[start as int]);
                }
            }
            assert(words(rest) =~= seq![]);
            assert(texts(out@) =~= words(s@));
            return out;
        }
        let ghost before = texts(out@);
        let word = string_of(&v, start, end);
        assert(word@ =~= t.take(end - start));
        assert(t.skip(end - start) =~= v@.skip(end as int));
        out.push(word);
        assert(texts(out@) =~= before.push(word@));
        assert(texts(out@) + words(v@.skip(end as int)) =~= before + words(rest));
        pos = end;
    }
    assert(words(v@.skip(pos as int)) =~= seq![]) by {
        assert(v@.skip(pos as int).len() == 0);
    }
    assert(texts(out@) =~= words(s@));
    out
}

/// `s` without the carriage return it ends with, if it does.
pub open spec fn without_cr(s: Seq<char>) -> Seq<char> {
    if s.len() > 0 && s.last() == '\r' {
        s.drop_last()
    } else {
        s
    }
}

/// The lines of `s`. A line feed ends a line and belongs to none, nor does a
/// carriage return right before it. A line feed that ends `s` starts no line.
pub open spec fn lines(s: Seq<char>) -> Seq<Seq<char>>
    decreases s.len(),
{
    if s.len() == 0 {
        seq![]
    } else {
        let k = span(s, other_than('\n'));
        proof {
            lemma_span(s, other_than('\n'));
        }
        if k == s.len() {
            seq![s]
        } else {
            seq![without_cr(s.take(k as int))] + lines(s.skip(k as int + 1))
        }
    }
}

/// The lines of `s`.
pub fn split_lines(s: &str) -> (r: Vec<String>)
    ensures
        texts(r@) == lines(s@),
{
    let v = chars_of(s);
    let mut out: Vec<String> = Vec::new();
    let mut pos: usize = 0;
    assert(v@.skip(0) =~= v@);
    assert(texts(out@) + lines(v@.skip(0)) =~= lines(s@));
    while pos < v.len()
        invariant
            pos <= v.len(),
            v@ == s@,
            texts(out@) + lines(v@.skip(pos as int)) == lines(s@),
        decreases v.len() - pos,
    {
        let ghost rest = v@.skip(pos as int);
        let mut end: usize = pos;
        while end < v.len() && v[end] != '\n'
            invariant
                pos <= end <= v.len(),
                forall|j: int| pos <= j < end ==> #[trigger] v@[j] != '\n',
            decreases v.len() - end,
        {
            end += 1;
        }
        proof {
            lemma_span_is(rest, other_than('\n'), (end - pos) as nat);
        }
        let ghost before = texts(out@);
        if end == v.len() {
            let line = string_of(&v, pos, end);
            assert(line@ =~= rest);
            out.push(line);
            assert(texts(out@) =~= before.push(line@));
            assert(before + lines(rest) =~= before.push(line@));
            return out;
        }
        let cut: usize = if end > pos && v[end - 1] == '\r' {
            end - 1
        } else {
            end
        };
        let line = string_of(&v, pos, cut);
        assert(line@ =~= without_cr(rest.take(end - pos)));
        out.push(line);
        assert(texts(out@) =~= before.push(line@));
        assert(rest.skip(end - pos + 1) =~= v@.skip(end + 1));
        assert(texts(out@) + lines(v@.skip(end + 1)) =~= before + lines(rest));
        pos = end + 1;
    }
    assert(lines(v@.skip(pos as int)) =~= seq![]) by {
        assert(v@.skip(pos as int).len() == 0);
    }
    assert(texts(out@) =~= lines(s@));
    out
}

/// `s` parted at the first `x`, which goes to neither part.
pub open spec fn parted(s: Seq<char>, x: char) -> Option<(Seq<char>, Seq<char>)> {
    let k = span(s, other_than(x));
    if k == s.len() {
        None
    } else {
        Some((s.take(k as int), s.skip(k as int + 1)))
    }
}

/// `s` parted at the first `x`, or `None` where there is none.
pub fn split_once(s: &str, x: char) -> (r: Option<(String, String)>)
    ensures
        match r {
            Some(p) => parted(s@, x) == Some((p.0@, p.1@)),
            None => parted(s@, x) is None,
        },
{
    let v = chars_of(s);
    let mut k: usize = 0;
    while k < v.len() && v[k] != x
        invariant
            k <= v.len(),
            forall|j: int| 0 <= j < k ==> #[trigger] v@[j] != x,
        decreases v.len() - k,
    {
        k += 1;
    }
    proof {
        lemma_span_is(s@, other_than(x), k as nat);
    }
    if k == v.len() {
        None
    } else {
        let left = string_of(&v, 0, k);
        let right = string_of(&v, k + 1, v.len());
        assert(left@ =~= s@.take(k as int));
        assert(right@ =~= s@.skip(k as int + 1));
        Some((left, right))
    }
}

/// Whether `s` starts with the character `x`.
pub fn starts_with_char(s: &str, x: char) -> (r: bool)
    ensures
        r == (s@.len() > 0 && s@[0] == x),
{
    let v = chars_of(s);
    v.len() > 0 && v[0] == x
}

/// The character of the decimal digit `d`.
pub open spec fn digit(d: nat) -> char {
    (48 + d) as char
}

/// `n` in decimal, without leading zeros.
pub open spec fn decimal(n: nat) -> Seq<char>
    decreases n,
{
    if n < 10 {
        seq![digit(n)]
    } else {
        decimal(n / 10).push(digit(n % 10))
    }
}

/// `n` in decimal, with a minus sign where it is negative.
pub open spec fn signed_decimal(n: int) -> Seq<char> {
    if n < 0 {
        seq!['-'] + decimal((-n) as nat)
    } else {
        decimal(n as nat)
    }
}

/// Appends `n` in decimal.
pub fn push_decimal(out: &mut String, n: u64)
    ensures
        final(out)@ == old(out)@ + decimal(n as nat),
    decreases n,
{
    if n >= 10 {
        push_decimal(out, n / 10);
    }
    let d: u8 = (n % 10) as u8;
    let ghost before = out@;
    out.push((48 + d) as char);
    assert(out@ =~= old(out)@ + decimal(n as nat));
}

/// Appends `n` in decimal, with a minus sign where it is negative.
pub fn push_signed(out: &mut String, n: i32)
    ensures
        final(out)@ == old(out)@ + signed_decimal(n as int),
{
    if n < 0 {
        let ghost before = out@;
        out.push('-');
        let m: u64 = (-(n as i64)) as u64;
        push_decimal(out, m);
        assert(out@ =~= before + signed_decimal(n as int));
    } else {
        push_decimal(out, n as u64);
    }
}

/// `n` times the character `c`.
pub open spec fn repeated(c: char, n: nat) -> Seq<char> {
    Seq::new(n, |i: int| c)
}

/// Appends `n` times the character `c`.
pub fn push_repeated(out: &mut String, c: char, n: usize)
    ensures
        final(out)@ == old(out)@ + repeated(c, n as nat),
{
    let mut i: usize = 0;
    assert(out@ =~= out@ + repeated(c, 0));
    while i < n
        invariant
            i <= n,
            out@ == old(out)@ + repeated(c, i as nat),
        decreases n - i,
    {
        let ghost before = out@;
        out.push(c);
        i += 1;
        assert(out@ =~= old(out)@ + repeated(c, i as nat));
    }
}

/// How many characters a text of length `len` lacks to `width`.
pub open spec fn missing(width: nat, len: nat) -> nat {
    if len < width {
        (width - len) as nat
    } else {
        0
    }
}

/// `s` with blanks before it, so that it is at least `width` characters long.
pub open spec fn pad_left(s: Seq<char>, width: nat) -> Seq<char> {
    repeated(' ', missing(width, s.len())) + s
}

/// `s` with blanks behind it, so that it is at least `width` characters long.
pub open spec fn pad_right(s: Seq<char>, width: nat) -> Seq<char> {
    s + repeated(' ', missing(width, s.len()))
}

/// The number of characters of `s`.
pub fn char_count(s: &str) -> (n: usize)
    ensures
        n == s@.len(),
{
    chars_of(s).len()
}

/// `s` with blanks before it, up to `width` characters.
pub fn padded_left(s: &str, width: usize) -> (r: String)
    ensures
        r@ == pad_left(s@, width as nat),
{
    let n = char_count(s);
    let mut r = String::new();
    let gap: usize = if n < width {
        width - n
    } else {
        0
    };
    push_repeated(&mut r, ' ', gap);
    r.append(s);
    assert(r@ =~= pad_left(s@, width as nat));
    r
}

/// `s` with blanks behind it, up to `width` characters.
pub fn padded_right(s: &str, width: usize) -> (r: String)
    ensures
        r@ == pad_right(s@, width as nat),
{
    let n = char_count(s);
    let mut r = s.to_owned();
    let gap: usize = if n < width {
        width - n
    } else {
        0
    };
    push_repeated(&mut r, ' ', gap);
    r
}

/// The parts, with `sep` between each two.
pub open spec fn joined(parts: Seq<Seq<char>>, sep: Seq<char>) -> Seq<char>
    decreases parts.len(),
{
    if parts.len() == 0 {
        seq![]
    } else if parts.len() == 1 {
        parts[0]
    } else {
        joined(parts.drop_last(), sep) + sep + parts.last()
    }
}

/// The strings, with `sep` between each two.
pub fn join(parts: &Vec<String>, sep: &str) -> (r: String)
    ensures
        r@ == joined(texts(parts@), sep@),
{
    let mut r = String::new();
    let mut i: usize = 0;
    assert(texts(parts@).take(0) =~= seq![]);
    while i < parts.len()
        invariant
            i <= parts.len(),
            r@ == joined(texts(parts@).take(i as int), sep@),
        decreases parts.len() - i,
    {
        if i > 0 {
            r.append(sep);
        }
        r.append(parts[i].as_str());
        assert(texts(parts@).take(i + 1).drop_last() =~= texts(parts@).take(i as int));
        assert(r@ =~= joined(texts(parts@).take(i + 1), sep@));
        i += 1;
    }
    assert(texts(parts@).take(i as int) =~= texts(parts@));
    r
}

/// Whether `name` is one of the strings.
pub fn lists(names: &Vec<String>, name: &str) -> (r: bool)
    ensures
        r == texts(names@).contains(name@),
{
    let mut i: usize = 0;
    while i < names.len()
        invariant
            i <= names.len(),
            forall|j: int| 0 <= j < i ==> (#[trigger] names@[j])@ != name@,
        decreases names.len() - i,
    {
        if same_text(names[i].as_str(), name) {
            assert(texts(names@)[i as int] == name@);
            return true;
        }
        i += 1;
    }
    false
}

/// The number of bytes that encode a character.
pub open spec fn char_bytes(c: char) -> nat {
    encode_scalar(c as u32).len()
}

/// How many characters of `s` stand before byte `b`. There is no such number
/// where `b` lies within a character or behind the end.
pub open spec fn index_at(s: Seq<char>, b: nat) -> Option<nat>
    decreases s.len(),
{
    if b == 0 {
        Some(0)
    } else if s.len() == 0 || b < char_bytes(s[0]) {
        None
    } else {
        match index_at(s.skip(1), (b - char_bytes(s[0])) as nat) {
            Some(i) => Some(i + 1),
            None => None,
        }
    }
}

/// The characters before byte `b` take `b` bytes.
pub proof fn lemma_index_at(s: Seq<char>, b: nat)
    ensures
        index_at(s, b) matches Some(i) ==> i <= s.len() && byte_len(s.take(i as int)) == b,
    decreases s.len(),
{
    if b == 0 {
        assert(s.take(0) =~= seq![]);
    } else if s.len() > 0 && b >= char_bytes(s[0]) {
        let rest = s.skip(1);
        lemma_index_at(rest, (b - char_bytes(s[0])) as nat);
        if let Some(i) = index_at(rest, (b - char_bytes(s[0])) as nat) {
            let head = s.take(i as int + 1);
            assert(head.drop_first() =~= rest.take(i as int));
        }
    }
}

/// Where the first `i` characters end, there stand `i` characters before.
pub proof fn lemma_index_of_prefix(s: Seq<char>, i: nat)
    requires
        i <= s.len(),
    ensures
        index_at(s, byte_len(s.take(i as int))) == Some(i),
    decreases s.len(),
{
    let head = s.take(i as int);
    if i > 0 {
        assert(head.drop_first() =~= s.skip(1).take(i as int - 1));
        assert(char_bytes(s[0]) > 0);
        lemma_index_of_prefix(s.skip(1), (i - 1) as nat);
    } else {
        assert(byte_len(head) == 0);
    }
}

/// The number of bytes that encode a character.
pub fn char_bytes_of(c: char) -> (n: usize)
    ensures
        n == char_bytes(c),
{
    let u: u32 = c as u32;
    if u <= 0x7f {
        1
    } else if u <= 0x7ff {
        2
    } else if u <= 0xffff {
        3
    } else {
        4
    }
}

/// How many characters stand before byte `b`.
pub fn char_index(v: &Vec<char>, b: usize) -> (r: Option<usize>)
    ensures
        match r {
            Some(i) => index_at(v@, b as nat) == Some(i as nat) && i <= v.len(),
            None => index_at(v@, b as nat) is None,
        },
{
    let mut left: usize = b;
    let mut i: usize = 0;
    assert(v@.skip(0) =~= v@);
    while left > 0
        invariant
            i <= v.len(),
            match index_at(v@.skip(i as int), left as nat) {
                Some(k) => index_at(v@, b as nat) == Some(i as nat + k),
                None => index_at(v@, b as nat) is None,
            },
        decreases v.len() - i,
    {
        if i == v.len() {
            return None;
        }
        let w: usize = char_bytes_of(v[i]);
        assert(v@.skip(i as int).skip(1) =~= v@.skip(i + 1));
        if left < w {
            return None;
        }
        left = left - w;
        i += 1;
    }
    Some(i)
}

/// The parts of `s` between the characters `x`.
pub open spec fn parts(s: Seq<char>, x: char) -> Seq<Seq<char>>
    decreases s.len(),
{
    match parted(s, x) {
        None => seq![s],
        Some((left, right)) => {
            proof {
                lemma_span(s, other_than(x));
            }
            seq![left] + parts(s.skip(span(s, other_than(x)) as int + 1), x)
        },
    }
}

/// The parts of `s` between the characters `x`.
pub fn split_on(s: &str, x: char) -> (r: Vec<String>)
    ensures
        texts(r@) == parts(s@, x),
{
    let mut out: Vec<String> = Vec::new();
    let mut rest = s.to_owned();
    assert(texts(out@) + parts(rest@, x) =~= parts(s@, x));
    loop
        invariant
            texts(out@) + parts(rest@, x) == parts(s@, x),
        decreases rest@.len(),
    {
        let ghost before = texts(out@);
        match split_once(rest.as_str(), x) {
            None => {
                let ghost last = rest@;
                out.push(rest);
                assert(texts(out@) =~= before.push(last));
                assert(before + seq![last] =~= before.push(last));
                return out;
            },
            Some((left, right)) => {
                proof {
                    lemma_span(rest@, other_than(x));
                }
                let ghost part = left@;
                out.push(left);
                assert(texts(out@) =~= before.push(part));
                assert(texts(out@) + parts(right@, x) =~= before + parts(rest@, x));
                rest = right;
            },
        }
    }
}

/// Whether `part` stands somewhere in `s`.
pub open spec fn holds_text(s: Seq<char>, part: Seq<char>) -> bool {
    exists|i: int| 0 <= i <= s.len() - part.len() && #[trigger] starts_at(s, part, i)
}

/// Whether `part` stands in `s` at `i`.
pub open spec fn starts_at(s: Seq<char>, part: Seq<char>, i: int) -> bool {
    s.subrange(i, i + part.len()) == part
}

/// Whether `part` stands somewhere in `s`.
pub fn contains_text(s: &str, part: &str) -> (r: bool)
    ensures
        r == holds_text(s@, part@),
{
    let v = chars_of(s);
    let p = chars_of(part);
    if p.len() > v.len() {
        return false;
    }
    let mut i: usize = 0;
    while i <= v.len() - p.len()
        invariant
            v@ == s@,
            p@ == part@,
            p.len() <= v.len(),
            i <= v.len() - p.len() + 1,
            forall|j: int| 0 <= j < i ==> !#[trigger] starts_at(s@, part@, j),
        decreases v.len() - i,
    {
        let mut k: usize = 0;
        while k < p.len() && v[i + k] == p[k]
            invariant
                k <= p.len(),
                i + p.len() <= v.len(),
                forall|j: int| 0 <= j < k ==> v@[i + j] == p@[j],
            decreases p.len() - k,
        {
            k += 1;
        }
        if k == p.len() {
            assert(s@.subrange(i as int, i + part@.len()) =~= part@);
            assert(starts_at(s@, part@, i as int));
            return true;
        }
        assert(!starts_at(s@, part@, i as int)) by {
            if starts_at(s@, part@, i as int) {
                assert(s@.subrange(i as int, i + part@.len())[k as int] == part@[k as int]);
            }
        }
        if i == v.len() - p.len() {
            return false;
        }
        i += 1;
    }
    false
}

} // verus!
