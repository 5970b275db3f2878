//! What the functions on texts are for: how a text and its parts make up each
//! other, and what numbers their digits stand for.

use vstd::prelude::*;
use crate::text::{
    byte_len, char_bytes, decimal, digit, holds_text, index_at, is_white, joined,
    lemma_index_of_prefix, lemma_span, lemma_span_is, lines, not_white, other_than, pad_left,
    pad_right, parted, parts, repeated, signed_decimal, span, starts_at, trim_end, trim_start,
    trimmed, white, words,
};

verus! {

/// The number that a text of decimal digits stands for.
pub open spec fn value_of(s: Seq<char>) -> nat
    decreases s.len(),
{
    if s.len() == 0 {
        0
    } else {
        10 * value_of(s.drop_last()) + (s.last() as u32 - 48) as nat
    }
}

/// The digits of a number stand for it, and it has no digits to spare.
pub proof fn law_decimal_stands_for_number(n: nat)
    ensures
        value_of(decimal(n)) == n,
        decimal(n).len() > 0,
        forall|i: int|
            0 <= i < decimal(n).len() ==> '0' <= #[trigger] decimal(n)[i] && decimal(n)[i] <= '9',
        decimal(n).len() > 1 ==> decimal(n)[0] != '0',
    decreases n,
{
    if n >= 10 {
        law_decimal_stands_for_number(n / 10);
        assert(decimal(n).drop_last() =~= decimal(n / 10));
        if decimal(n / 10).len() == 1 {
            assert(n / 10 < 10) by {
                if n / 10 >= 10 {
                    law_decimal_stands_for_number(n / 10 / 10);
                }
            }
            assert(decimal(n / 10)[0] == digit(n / 10));
        }
    } else {
        assert(decimal(n).drop_last() =~= seq![]);
        assert(value_of(decimal(n).drop_last()) == 0);
    }
}

/// Different numbers have different digits.
pub proof fn law_decimal_tells_numbers_apart(m: nat, n: nat)
    requires
        decimal(m) == decimal(n),
    ensures
        m == n,
{
    law_decimal_stands_for_number(m);
    law_decimal_stands_for_number(n);
}

/// A negative number has a minus sign and the digits of its amount, another one
/// its digits alone, so that different numbers are written differently.
pub proof fn law_signed_decimal_stands_for_number(n: int)
    ensures
        n < 0 ==> signed_decimal(n).len() > 1 && signed_decimal(n)[0] == '-' && value_of(
            signed_decimal(n).skip(1),
        ) == -n,
        n >= 0 ==> signed_decimal(n).len() > 0 && signed_decimal(n)[0] != '-' && value_of(
            signed_decimal(n),
        ) == n,
{
    if n < 0 {
        law_decimal_stands_for_number((-n) as nat);
        assert(signed_decimal(n).skip(1) =~= decimal((-n) as nat));
    } else {
        law_decimal_stands_for_number(n as nat);
        assert('0' <= decimal(n as nat)[0]);
    }
}

/// Different numbers are written differently.
pub proof fn law_signed_decimal_tells_numbers_apart(m: int, n: int)
    requires
        signed_decimal(m) == signed_decimal(n),
    ensures
        m == n,
{
    law_signed_decimal_stands_for_number(m);
    law_signed_decimal_stands_for_number(n);
}

/// Trimming takes white space away at the end, all of it, and nothing else.
pub proof fn law_trim_end_cuts_white_space(s: Seq<char>)
    ensures
        trim_end(s).len() <= s.len(),
        trim_end(s) == s.take(trim_end(s).len() as int),
        forall|i: int| trim_end(s).len() <= i < s.len() ==> is_white(#[trigger] s[i]),
        trim_end(s).len() > 0 ==> !is_white(trim_end(s).last()),
    decreases s.len(),
{
    if s.len() > 0 && is_white(s.last()) {
        let t = s.drop_last();
        law_trim_end_cuts_white_space(t);
        assert(t.take(trim_end(s).len() as int) =~= s.take(trim_end(s).len() as int));
        assert forall|i: int| trim_end(s).len() <= i < s.len() implies is_white(
            #[trigger] s[i],
        ) by {
            if i < t.len() {
                assert(t[i] == s[i]);
            }
        }
    } else {
        assert(s.take(s.len() as int) =~= s);
    }
}

/// A text is white space, its trimmed form, and white space, where the trimmed
/// form neither begins nor ends with any.
pub proof fn law_trimmed_is_the_middle(s: Seq<char>)
    ensures
        exists|i: int, j: int|
            #![trigger s.subrange(i, j)]
            {
                &&& 0 <= i <= j <= s.len()
                &&& trimmed(s) == s.subrange(i, j)
                &&& forall|k: int| 0 <= k < i || j <= k < s.len() ==> is_white(#[trigger] s[k])
            },
        trimmed(s).len() > 0 ==> !is_white(trimmed(s)[0]) && !is_white(trimmed(s).last()),
{
    let i = span(s, white()) as int;
    lemma_span(s, white());
    let t = trim_start(s);
    law_trim_end_cuts_white_space(t);
    let j = i + trim_end(t).len();
    assert(s.subrange(i, j) =~= trimmed(s));
    assert forall|k: int| 0 <= k < i || j <= k < s.len() implies is_white(#[trigger] s[k]) by {
        if k < i {
            assert(white()(s[k]));
        } else {
            assert(t[k - i] == s[k]);
        }
    }
    if trimmed(s).len() > 0 {
        assert(trimmed(s)[0] == t[0]);
        assert(t[0] == s[i]);
        assert(!white()(s[i]));
    }
}

/// Text that neither begins nor ends with white space is trimmed already, and
/// white space around it does not matter.
pub proof fn law_trimmed_drops_what_is_around(a: Seq<char>, s: Seq<char>, b: Seq<char>)
    requires
        forall|i: int| 0 <= i < a.len() ==> is_white(#[trigger] a[i]),
        forall|i: int| 0 <= i < b.len() ==> is_white(#[trigger] b[i]),
        s.len() > 0 ==> !is_white(s[0]) && !is_white(s.last()),
    ensures
        trimmed(a + s + b) == s,
{
    let t = a + s + b;
    law_trimmed_is_the_middle(t);
    let (i, j) = choose|i: int, j: int|
        #![trigger t.subrange(i, j)]
        {
            &&& 0 <= i <= j <= t.len()
            &&& trimmed(t) == t.subrange(i, j)
            &&& forall|k: int| 0 <= k < i || j <= k < t.len() ==> is_white(#[trigger] t[k])
        };
    let from = a.len() as int;
    let to = from + s.len();
    if s.len() > 0 {
        assert(t[from] == s[0]);
        assert(t[to - 1] == s.last());
        assert(i <= from && j >= to);
        if i < from {
            assert(t[i] == a[i]);
            assert(trimmed(t)[0] == t[i]);
        }
        if j > to {
            assert(t[j - 1] == b[j - 1 - to]);
            assert(trimmed(t).last() == t[j - 1]);
        }
        assert(t.subrange(from, to) =~= s);
    } else {
        assert forall|k: int| 0 <= k < t.len() implies is_white(#[trigger] t[k]) by {
            if k < from {
                assert(t[k] == a[k]);
            } else {
                assert(t[k] == b[k - from]);
            }
        }
        if trimmed(t).len() > 0 {
            assert(trimmed(t)[0] == t[i]);
        }
        assert(trimmed(t) =~= s);
    }
}

proof fn lemma_words_skip(s: Seq<char>)
    requires
        s.len() > 0,
        is_white(s[0]),
    ensures
        words(s) == words(s.skip(1)),
{
    let r = s.skip(1);
    lemma_span(r, white());
    assert(span(s, white()) == 1 + span(r, white()));
    assert(trim_start(s) =~= trim_start(r));
}

/// A text without white space is one word, and the empty text has none.
pub proof fn law_unbroken_text_is_one_word(a: Seq<char>)
    requires
        forall|i: int| 0 <= i < a.len() ==> !is_white(#[trigger] a[i]),
    ensures
        words(a) == if a.len() == 0 {
            Seq::<Seq<char>>::empty()
        } else {
            seq![a]
        },
{
    lemma_span_is(a, white(), 0);
    assert(trim_start(a) =~= a);
    if a.len() > 0 {
        lemma_span_is(a, not_white(), a.len());
        assert(a.take(a.len() as int) =~= a);
        let rest = a.skip(a.len() as int);
        assert(trim_start(rest).len() == 0) by {
            lemma_span(rest, white());
        }
        assert(words(rest) =~= seq![]);
        assert(words(a) =~= seq![a]);
    }
}

/// White space parts words: the words of a text are those before it and those
/// behind it.
pub proof fn law_words_are_parted_by_white_space(a: Seq<char>, w: char, b: Seq<char>)
    requires
        is_white(w),
    ensures
        words(a + (seq![w] + b)) == words(a) + words(b),
    decreases a.len(),
{
    let s = a + (seq![w] + b);
    if a.len() == 0 {
        assert(s[0] == w);
        assert(s.skip(1) =~= b);
        lemma_words_skip(s);
        law_unbroken_text_is_one_word(a);
        assert(words(a) + words(b) =~= words(b));
    } else if is_white(a[0]) {
        lemma_words_skip(a);
        assert(s[0] == a[0]);
        lemma_words_skip(s);
        assert(s.skip(1) =~= a.skip(1) + (seq![w] + b));
        law_words_are_parted_by_white_space(a.skip(1), w, b);
    } else {
        let k = span(a, not_white());
        lemma_span(a, not_white());
        assert(k > 0) by {
            assert(not_white()(a[0]));
        }
        lemma_span_is(a, white(), 0);
        assert(trim_start(a) =~= a);
        assert(s[0] == a[0]);
        lemma_span_is(s, white(), 0);
        assert(trim_start(s) =~= s);
        assert forall|i: int| 0 <= i < k implies not_white()(#[trigger] s[i]) by {
            assert(s[i] == a[i]);
        }
        if k < a.len() {
            assert(s[k as int] == a[k as int]);
        } else {
            assert(s[k as int] == w);
        }
        lemma_span_is(s, not_white(), k);
        let tail = a.skip(k as int);
        assert(s.skip(k as int) =~= tail + (seq![w] + b));
        assert(s.take(k as int) =~= a.take(k as int));
        law_words_are_parted_by_white_space(tail, w, b);
        assert(words(s) =~= words(a) + words(b));
    }
}

/// A line feed ends a line: the lines of a text are the one before the first line
/// feed, without a carriage return at its end, and those behind it.
pub proof fn law_line_feed_ends_line(a: Seq<char>, b: Seq<char>)
    requires
        !a.contains('\n'),
    ensures
        lines(a + (seq!['\n'] + b)) == seq![
            if a.len() > 0 && a.last() == '\r' {
                a.drop_last()
            } else {
                a
            },
        ] + lines(b),
{
    let s = a + (seq!['\n'] + b);
    assert forall|i: int| 0 <= i < a.len() implies other_than('\n')(#[trigger] s[i]) by {
        assert(s[i] == a[i]);
        assert(a.contains(a[i]));
    }
    assert(s[a.len() as int] == '\n');
    lemma_span_is(s, other_than('\n'), a.len());
    assert(s.take(a.len() as int) =~= a);
    assert(s.skip(a.len() as int + 1) =~= b);
}

/// The text behind the last line feed is a line as it stands, where there is any.
pub proof fn law_last_line_is_kept(a: Seq<char>)
    requires
        !a.contains('\n'),
    ensures
        lines(a) == if a.len() == 0 {
            Seq::<Seq<char>>::empty()
        } else {
            seq![a]
        },
{
    assert forall|i: int| 0 <= i < a.len() implies other_than('\n')(#[trigger] a[i]) by {
        assert(a.contains(a[i]));
    }
    lemma_span_is(a, other_than('\n'), a.len());
}

/// A text is parted at the first `x`: the parts and `x` make it up, and `x` is not
/// in the first part. Without `x` it is not parted.
pub proof fn law_parted_at_first(s: Seq<char>, x: char)
    ensures
        parted(s, x) is None <==> !s.contains(x),
        parted(s, x) matches Some(p) ==> s == p.0 + seq![x] + p.1 && !p.0.contains(x),
{
    let k = span(s, other_than(x));
    lemma_span(s, other_than(x));
    if k == s.len() {
        if s.contains(x) {
            let i = choose|i: int| 0 <= i < s.len() && s[i] == x;
            assert(other_than(x)(s[i]));
        }
    } else {
        let a = s.take(k as int);
        assert(!other_than(x)(s[k as int]));
        assert(s.contains(s[k as int]));
        assert(s =~= a + seq![x] + s.skip(k as int + 1));
        if a.contains(x) {
            let i = choose|i: int| 0 <= i < a.len() && a[i] == x;
            assert(other_than(x)(s[i]));
        }
    }
}

/// A text that is put together with `x` is parted into what it was put together
/// from.
pub proof fn law_parted_gives_parts_back(a: Seq<char>, x: char, b: Seq<char>)
    requires
        !a.contains(x),
    ensures
        parted(a + seq![x] + b, x) == Some((a, b)),
{
    let s = a + seq![x] + b;
    assert forall|i: int| 0 <= i < a.len() implies other_than(x)(#[trigger] s[i]) by {
        assert(s[i] == a[i]);
        assert(a.contains(a[i]));
    }
    assert(s[a.len() as int] == x);
    lemma_span_is(s, other_than(x), a.len());
    assert(s.take(a.len() as int) =~= a);
    assert(s.skip(a.len() as int + 1) =~= b);
}

/// The parts between separators are the one before the first and those behind it.
pub proof fn law_parts_are_between_separators(a: Seq<char>, x: char, b: Seq<char>)
    requires
        !a.contains(x),
    ensures
        parts(a, x) == seq![a],
        parts(a + seq![x] + b, x) == seq![a] + parts(b, x),
{
    let s = a + seq![x] + b;
    law_parted_gives_parts_back(a, x, b);
    law_parted_at_first(a, x);
    assert(s.skip(span(s, other_than(x)) as int + 1) =~= b) by {
        assert(s.take(span(s, other_than(x)) as int) == a);
        lemma_span(s, other_than(x));
        assert(span(s, other_than(x)) == a.len());
    }
}

/// Padding fills up with blanks to the width, on one side, and keeps the text.
pub proof fn law_padding_fills_with_blanks(s: Seq<char>, width: nat)
    ensures
        pad_left(s, width).len() == if s.len() < width {
            width
        } else {
            s.len()
        },
        pad_right(s, width).len() == pad_left(s, width).len(),
        pad_left(s, width).skip(pad_left(s, width).len() - s.len()) == s,
        pad_right(s, width).take(s.len() as int) == s,
        forall|i: int|
            0 <= i < pad_left(s, width).len() - s.len() ==> #[trigger] pad_left(s, width)[i] == ' ',
        forall|i: int|
            s.len() <= i < pad_right(s, width).len() ==> #[trigger] pad_right(s, width)[i] == ' ',
{
    assert(pad_left(s, width).skip(pad_left(s, width).len() - s.len()) =~= s);
    assert(pad_right(s, width).take(s.len() as int) =~= s);
}

/// `n` times a character is `n` characters long and has no other.
pub proof fn law_repeated_is_all_alike(c: char, n: nat)
    ensures
        repeated(c, n).len() == n,
        forall|i: int| 0 <= i < n ==> #[trigger] repeated(c, n)[i] == c,
{
}

/// Nothing joined is nothing, one text is itself, and one more text comes behind
/// the separator.
pub proof fn law_joined_has_separators_between(p: Seq<Seq<char>>, sep: Seq<char>, x: Seq<char>)
    ensures
        joined(Seq::<Seq<char>>::empty(), sep).len() == 0,
        joined(seq![x], sep) == x,
        p.len() > 0 ==> joined(p.push(x), sep) == joined(p, sep) + sep + x,
{
    assert(p.push(x).drop_last() =~= p);
}

/// A text is found in another where that is made up of something, the text, and
/// something.
pub proof fn law_held_text_is_in_between(a: Seq<char>, part: Seq<char>, b: Seq<char>)
    ensures
        holds_text(a + part + b, part),
{
    let s = a + part + b;
    assert(s.subrange(a.len() as int, (a.len() + part.len()) as int) =~= part);
    assert(starts_at(s, part, a.len() as int));
}

/// Where a text is found in another, that is made up so.
pub proof fn law_text_that_holds_is_made_up(s: Seq<char>, part: Seq<char>)
    requires
        holds_text(s, part),
    ensures
        exists|a: Seq<char>, b: Seq<char>| s == #[trigger] (a + part + b),
{
    let i = choose|i: int| 0 <= i <= s.len() - part.len() && #[trigger] starts_at(s, part, i);
    let a = s.take(i);
    let b = s.skip(i + part.len());
    assert(s =~= a + part + b);
}

/// The bytes of a text count its characters up to there.
pub proof fn law_index_counts_characters(a: Seq<char>, b: Seq<char>)
    ensures
        index_at(a + b, byte_len(a)) == Some(a.len()),
{
    let s = a + b;
    lemma_index_of_prefix(s, a.len());
    assert(s.take(a.len() as int) =~= a);
}

/// The bytes of two texts are those of both, and a character has one to four.
pub proof fn law_bytes_add_up(a: Seq<char>, b: Seq<char>, c: char)
    ensures
        byte_len(a + b) == byte_len(a) + byte_len(b),
        1 <= byte_len(seq![c]) <= 4,
        c as u32 <= 0x7f ==> byte_len(seq![c]) == 1,
    decreases a.len(),
{
    let s = a + b;
    if a.len() == 0 {
        assert(s =~= b);
    } else {
        law_bytes_add_up(a.drop_first(), b, c);
        assert(s.drop_first() =~= a.drop_first() + b);
        assert(s[0] == a[0]);
    }
    assert(seq![c].drop_first() =~= seq![]);
    assert(byte_len(Seq::<char>::empty()) == 0);
    assert(byte_len(seq![c]) == char_bytes(c));
}

} // verus!
