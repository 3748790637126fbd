//! What the results of calls on texts satisfy, said of the results and the arguments.
//!
//! A law starts from a call that was made: `call_ensures` holds of a function, the
//! arguments of a call and what that call returned.

use vstd::prelude::*;

use crate::laws::{
    core_of, joined, law_pieces, lemma_has_core, lemma_trimmed_core,
};
use crate::text::{
    decimal, digit, eq_ignore_ascii_case, folded, is_blank, is_white_space, lemma_span, numeral,
    same_ignoring_case, span, split_pieces, split_words, trim, trimmed, words,
};

verus! {

broadcast use {vstd::string::group_string_axioms, vstd::seq_lib::group_seq_properties};

// --- text --------------------------------------------------------------------

/// The characters that are white space: tab to carriage return, space, next line, the
/// no-break, ogham, narrow no-break, medium mathematical and ideographic spaces, the en quad
/// to the hair space, and the line and paragraph separators.
pub proof fn law_white_space(c: char)
    ensures
        is_white_space(c) <==> (('\t' <= c <= '\r') || c == ' ' || c == '\u{85}' || c == '\u{a0}'
            || c == '\u{1680}' || ('\u{2000}' <= c <= '\u{200a}') || c == '\u{2028}' || c
            == '\u{2029}' || c == '\u{202f}' || c == '\u{205f}' || c == '\u{3000}'),
{
}

/// Whether `t` is `s` without the white space at either end.
pub open spec fn is_core(s: Seq<char>, t: Seq<char>) -> bool {
    exists|start: int, end: int|
        {
            &&& 0 <= start <= end <= s.len()
            &&& t == #[trigger] s.subrange(start, end)
            &&& forall|i: int|
                0 <= i < start || end <= i < s.len() ==> is_white_space(#[trigger] s[i])
            &&& start < end ==> !is_white_space(s[start]) && !is_white_space(s[end - 1])
        }
}

/// Trimming gives the text without the white space at either end, and no other text is
/// that.
pub proof fn law_core(s: Seq<char>, t: Seq<char>)
    ensures
        is_core(s, t) <==> t == trimmed(s),
{
    let (start, end) = lemma_has_core(s);
    lemma_trimmed_core(s, start, end);
    assert(is_core(s, s.subrange(start, end)));
    if is_core(s, t) {
        let (a, b) = choose|a: int, b: int|
            {
                &&& 0 <= a <= b <= s.len()
                &&& t == #[trigger] s.subrange(a, b)
                &&& forall|i: int| 0 <= i < a || b <= i < s.len() ==> is_white_space(#[trigger] s[i])
                &&& a < b ==> !is_white_space(s[a]) && !is_white_space(s[b - 1])
            };
        assert(core_of(s, a, b));
        lemma_trimmed_core(s, a, b);
    }
}

/// What [`trim`] returns is the text without the white space at either end.
pub proof fn law_trim(s: &str, r: &str)
    requires
        call_ensures(trim, (s,), r),
    ensures
        is_core(s@, r@),
{
    law_core(s@, r@);
}

/// [`is_blank`] tells whether every character is white space.
pub proof fn law_is_blank(s: &str, r: bool)
    requires
        call_ensures(is_blank, (s,), r),
    ensures
        r <==> forall|i: int| 0 <= i < s@.len() ==> is_white_space(#[trigger] s@[i]),
{
}

/// Whether the characters from `start` to `end` are a longest run without white space.
pub open spec fn is_run(s: Seq<char>, start: int, end: int) -> bool {
    &&& 0 <= start < end <= s.len()
    &&& forall|i: int| start <= i < end ==> !is_white_space(#[trigger] s[i])
    &&& start > 0 ==> is_white_space(s[start - 1])
    &&& end < s.len() ==> is_white_space(s[end])
}

/// Whether a place lies within one of the runs.
pub open spec fn lies_in(runs: Seq<(int, int)>, i: int) -> bool {
    exists|k: int| 0 <= k < runs.len() && (#[trigger] runs[k]).0 <= i < runs[k].1
}

/// Whether those are the longest runs without white space, from left to right, with
/// nothing left out.
pub open spec fn are_runs(s: Seq<char>, parts: Seq<Seq<char>>, runs: Seq<(int, int)>) -> bool {
    &&& runs.len() == parts.len()
    &&& forall|k: int|
        0 <= k < runs.len() ==> is_run(s, (#[trigger] runs[k]).0, runs[k].1) && parts[k]
            == s.subrange(runs[k].0, runs[k].1)
    &&& forall|k: int, m: int|
        0 <= k < m < runs.len() ==> (#[trigger] runs[k]).1 < (#[trigger] runs[m]).0
    &&& forall|i: int| 0 <= i < s.len() && !is_white_space(#[trigger] s[i]) ==> lies_in(runs, i)
}

/// Whether those are the words of a text: its longest runs of characters that are not
/// white space, all of them, from left to right.
pub open spec fn are_words(s: Seq<char>, parts: Seq<Seq<char>>) -> bool {
    exists|runs: Seq<(int, int)>| are_runs(s, parts, runs)
}

spec fn shifted(runs: Seq<(int, int)>, by: int) -> Seq<(int, int)> {
    Seq::new(runs.len(), |k: int| (runs[k].0 + by, runs[k].1 + by))
}

pub proof fn lemma_word_runs(s: Seq<char>) -> (runs: Seq<(int, int)>)
    ensures
        are_runs(s, words(s), runs),
    decreases s.len(),
{
    if s.len() == 0 {
        Seq::empty()
    } else if is_white_space(s[0]) {
        let rest = s.drop_first();
        let inner = lemma_word_runs(rest);
        let runs = shifted(inner, 1);
        lemma_shifted_runs(s, rest, words(rest), inner, 1);
        assert forall|i: int| 0 <= i < s.len() && !is_white_space(#[trigger] s[i]) implies lies_in(
            runs,
            i,
        ) by {
            assert(rest[i - 1] == s[i]);
            assert(lies_in(inner, i - 1));
            let k = choose|k: int| 0 <= k < inner.len() && (#[trigger] inner[k]).0 <= i - 1 < inner[k].1;
            assert(runs[k].0 <= i < runs[k].1);
        }
        runs
    } else {
        let stop = |c: char| is_white_space(c);
        let tail = s.drop_first();
        lemma_span(tail, stop);
        let n = 1 + span(tail, stop);
        let rest = s.skip(n);
        let inner = lemma_word_runs(rest);
        let later = shifted(inner, n);
        assert forall|i: int| 0 <= i < n implies !is_white_space(#[trigger] s[i]) by {
            if i > 0 {
                assert(!stop(tail[i - 1]));
            }
        }
        if n < s.len() {
            assert(stop(tail[n - 1]));
            assert(is_white_space(s[n]));
            assert(rest[0] == s[n]);
        }
        lemma_shifted_runs(s, rest, words(rest), inner, n);
        let runs = seq![(0int, n)] + later;
        assert(words(s) == seq![s.take(n)] + words(rest));
        assert(s.take(n) == s.subrange(0, n));
        assert forall|k: int| 0 <= k < runs.len() implies is_run(s, (#[trigger] runs[k]).0, runs[k].1)
            && words(s)[k] == s.subrange(runs[k].0, runs[k].1) by {
            if k > 0 {
                assert(runs[k] == later[k - 1]);
                assert(words(s)[k] == words(rest)[k - 1]);
            }
        }
        assert forall|k: int, m: int| 0 <= k < m < runs.len() implies (#[trigger] runs[k]).1 < (
        #[trigger] runs[m]).0 by {
            assert(runs[m] == later[m - 1]);
            if k > 0 {
                assert(runs[k] == later[k - 1]);
            } else {
                assert(is_run(rest, inner[m - 1].0, inner[m - 1].1));
                assert(inner[m - 1].0 > 0);
            }
        }
        assert forall|i: int| 0 <= i < s.len() && !is_white_space(#[trigger] s[i]) implies lies_in(
            runs,
            i,
        ) by {
            if i < n {
                assert(runs[0].0 <= i < runs[0].1);
            } else {
                assert(rest[i - n] == s[i]);
                assert(lies_in(inner, i - n));
                let k = choose|k: int|
                    0 <= k < inner.len() && (#[trigger] inner[k]).0 <= i - n < inner[k].1;
                assert(runs[k + 1] == later[k]);
                assert(runs[k + 1].0 <= i < runs[k + 1].1);
            }
        }
        runs
    }
}

proof fn lemma_shifted_runs(
    s: Seq<char>,
    rest: Seq<char>,
    parts: Seq<Seq<char>>,
    inner: Seq<(int, int)>,
    by: int,
)
    requires
        0 < by <= s.len(),
        rest == s.skip(by),
        are_runs(rest, parts, inner),
        is_white_space(s[by - 1]) || rest.len() == 0 || is_white_space(rest[0]),
    ensures
        forall|k: int|
            0 <= k < inner.len() ==> is_run(s, (#[trigger] shifted(inner, by)[k]).0, shifted(inner, by)[k].1)
                && parts[k] == s.subrange(shifted(inner, by)[k].0, shifted(inner, by)[k].1),
        forall|k: int, m: int|
            0 <= k < m < inner.len() ==> (#[trigger] shifted(inner, by)[k]).1 < (
            #[trigger] shifted(inner, by)[m]).0,
{
    let runs = shifted(inner, by);
    assert forall|k: int| 0 <= k < inner.len() implies is_run(s, (#[trigger] runs[k]).0, runs[k].1)
        && parts[k] == s.subrange(runs[k].0, runs[k].1) by {
        let start = inner[k].0;
        let end = inner[k].1;
        assert(is_run(rest, start, end));
        assert forall|i: int| start + by <= i < end + by implies !is_white_space(#[trigger] s[i]) by {
            assert(rest[i - by] == s[i]);
        }
        if start > 0 {
            assert(rest[start - 1] == s[start + by - 1]);
        } else {
            assert(!is_white_space(rest[0]));
        }
        if end < rest.len() {
            assert(rest[end] == s[end + by]);
        }
        assert(rest.subrange(start, end) == s.subrange(start + by, end + by));
    }
    assert forall|k: int, m: int| 0 <= k < m < inner.len() implies (#[trigger] runs[k]).1 < (
    #[trigger] runs[m]).0 by {
        assert(inner[k].1 < inner[m].0);
    }
}

/// Splitting at white space gives all the words of a text, in order.
pub proof fn law_split_words(s: &str, r: Vec<String>)
    requires
        call_ensures(split_words, (s,), r),
    ensures
        are_words(s@, r.deep_view()),
{
    let runs = lemma_word_runs(s@);
    assert(are_runs(s@, r.deep_view(), runs));
}

proof fn lemma_filter_concat(a: Seq<char>, b: Seq<char>, keep: spec_fn(char) -> bool)
    ensures
        (a + b).filter(keep) == a.filter(keep) + b.filter(keep),
    decreases b.len(),
{
    reveal(Seq::filter);
    if b.len() == 0 {
        assert(a + b == a);
    } else {
        assert((a + b).drop_last() == a + b.drop_last());
        lemma_filter_concat(a, b.drop_last(), keep);
    }
}

proof fn lemma_filter_all(s: Seq<char>, keep: spec_fn(char) -> bool)
    requires
        forall|i: int| 0 <= i < s.len() ==> keep(#[trigger] s[i]),
    ensures
        s.filter(keep) == s,
    decreases s.len(),
{
    reveal(Seq::filter);
    if s.len() > 0 {
        lemma_filter_all(s.drop_last(), keep);
        assert(s.drop_last().push(s.last()) == s);
    }
}

/// The words of a text, one after the other, are the text without its white space.
pub proof fn law_words_lose_nothing(s: Seq<char>)
    ensures
        words(s).flatten() == s.filter(|c: char| !is_white_space(c)),
    decreases s.len(),
{
    let keep = |c: char| !is_white_space(c);
    reveal(Seq::filter);
    if s.len() > 0 {
        if is_white_space(s[0]) {
            let first = seq![s[0]];
            law_words_lose_nothing(s.drop_first());
            assert(s == first + s.drop_first());
            lemma_filter_concat(first, s.drop_first(), keep);
            assert(first.drop_last().filter(keep) == Seq::<char>::empty());
            assert(first.filter(keep) == Seq::<char>::empty());
        } else {
            let stop = |c: char| is_white_space(c);
            lemma_span(s.drop_first(), stop);
            let n = 1 + span(s.drop_first(), stop);
            let head = s.take(n);
            let rest = s.skip(n);
            law_words_lose_nothing(rest);
            assert(s == head + rest);
            lemma_filter_concat(head, rest, keep);
            assert forall|i: int| 0 <= i < n implies keep(#[trigger] head[i]) by {
                if i > 0 {
                    assert(!stop(s.drop_first()[i - 1]));
                }
            }
            lemma_filter_all(head, keep);
            assert(words(s) == seq![head] + words(rest));
            assert(words(s).drop_first() == words(rest));
            assert(words(s).first() == head);
        }
    }
}

/// Splitting at a separator gives pieces without it, which with it put back between them
/// are the text.
pub proof fn law_split_pieces(s: &str, sep: char, r: Vec<String>)
    requires
        call_ensures(split_pieces, (s, sep), r),
    ensures
        r.deep_view().len() > 0,
        joined(r.deep_view(), sep) == s@,
        forall|k: int| 0 <= k < r.deep_view().len() ==> !(#[trigger] r.deep_view()[k]).contains(sep),
{
    law_pieces(s@, sep);
}

/// Whether two characters are the same, or the two cases of one ASCII letter.
pub open spec fn same_letter(a: char, b: char) -> bool {
    ||| a == b
    ||| 'A' <= a <= 'Z' && b as u32 == a as u32 + 32
    ||| 'A' <= b <= 'Z' && a as u32 == b as u32 + 32
}

/// Whether two texts are the same but for the case of ASCII letters.
pub open spec fn alike(a: Seq<char>, b: Seq<char>) -> bool {
    a.len() == b.len() && forall|i: int| 0 <= i < a.len() ==> same_letter(#[trigger] a[i], b[i])
}

/// Two characters fold to the same exactly where they are the same letter.
pub proof fn law_folded(a: char, b: char)
    ensures
        folded(a) == folded(b) <==> same_letter(a, b),
{
    if folded(a) == folded(b) {
        assert(a as u32 == b as u32 || a as u32 + 32 == b as u32 || a as u32 == b as u32 + 32);
    }
}

pub proof fn lemma_alike(a: Seq<char>, b: Seq<char>)
    ensures
        alike(a, b) <==> same_ignoring_case(a, b),
{
    assert forall|i: int| 0 <= i < a.len() && 0 <= i < b.len() implies (folded(#[trigger] a[i])
        == folded(b[i]) <==> same_letter(a[i], b[i])) by {
        law_folded(a[i], b[i]);
    }
}

/// [`eq_ignore_ascii_case`] tells whether two texts are the same but for the case of
/// ASCII letters.
pub proof fn law_eq_ignore_ascii_case(a: &str, b: &str, r: bool)
    requires
        call_ensures(eq_ignore_ascii_case, (a, b), r),
    ensures
        r <==> alike(a@, b@),
{
    lemma_alike(a@, b@);
}

/// The number that decimal digits stand for.
pub open spec fn number_of(s: Seq<char>) -> int
    decreases s.len(),
{
    if s.len() == 0 {
        0
    } else {
        10 * number_of(s.drop_last()) + (s.last() as int - '0' as int)
    }
}

proof fn lemma_decimal(n: nat)
    ensures
        decimal(n).len() > 0,
        number_of(decimal(n)) == n,
        forall|i: int| 0 <= i < decimal(n).len() ==> '0' <= #[trigger] decimal(n)[i] <= '9',
        n > 0 ==> decimal(n)[0] != '0',
        n == 0 ==> decimal(n).len() == 1,
    decreases n,
{
    if n < 10 {
        assert(decimal(n) == seq![digit(n)]);
        assert(decimal(n).drop_last() == Seq::<char>::empty());
        assert(number_of(Seq::<char>::empty()) == 0);
    } else {
        lemma_decimal(n / 10);
        let head = decimal(n / 10);
        assert(decimal(n).drop_last() == head);
        assert(decimal(n).last() == digit(n % 10));
        assert forall|i: int| 0 <= i < decimal(n).len() implies '0' <= #[trigger] decimal(n)[i]
            <= '9' by {
            if i < head.len() {
                assert(decimal(n)[i] == head[i]);
            }
        }
        assert(decimal(n)[0] == head[0]);
    }
}

/// A numeral holds decimal digits without a leading zero, and they stand for the number.
pub proof fn law_numeral(n: usize, r: String)
    requires
        call_ensures(numeral, (n,), r),
    ensures
        number_of(r@) == n,
        r@.len() > 0,
        forall|i: int| 0 <= i < r@.len() ==> '0' <= #[trigger] r@[i] <= '9',
        r@.len() > 1 ==> r@[0] != '0',
{
    lemma_decimal(n as nat);
}

}
