//! Text rules that the resolver relies on: white space, ASCII case folding,
//! splitting, and decimal numerals.

use vstd::prelude::*;
use vstd::string::*;

verus! {

broadcast use vstd::string::group_string_axioms;

/// The characters of the Unicode property `White_Space`.
pub open spec fn is_white_space(c: char) -> bool {
    let u = c as u32;
    ||| 0x09 <= u <= 0x0d
    ||| u == 0x20 || u == 0x85 || u == 0xa0 || u == 0x1680
    ||| 0x2000 <= u <= 0x200a
    ||| u == 0x2028 || u == 0x2029 || u == 0x202f || u == 0x205f || u == 0x3000
}

/// `char::is_whitespace` of std: true exactly for the characters that have the
/// Unicode property `White_Space`.
pub assume_specification[ char::is_whitespace ](c: char) -> (b: bool)
    ensures
        b == is_white_space(c),
;

/// `String::push` of std: appends the given character to the end of the string.
pub assume_specification[ String::push ](s: &mut String, c: char)
    ensures
        final(s)@ == old(s)@.push(c),
;

/// The characters of a string, in order.
pub fn chars_of(s: &str) -> (r: Vec<char>)
    ensures
        r@ == s@,
{
    let mut r: Vec<char> = Vec::new();
    for c in it: s.chars()
        invariant
            r@ == it.seq().take(it.index() as int),
            it.seq() == s@,
    {
        r.push(c);
    }
    r
}

/// The number of leading characters of `s` that do not meet `stop`.
pub open spec fn span(s: Seq<char>, stop: spec_fn(char) -> bool) -> int
    decreases s.len(),
{
    if s.len() == 0 || stop(s[0]) {
        0
    } else {
        1 + span(s.drop_first(), stop)
    }
}

/// What [`span`] finds: a length within the text, no stop before it, and a stop
/// at it unless the text ends there.
pub proof fn lemma_span(s: Seq<char>, stop: spec_fn(char) -> bool)
    ensures
        0 <= span(s, stop) <= s.len(),
        forall|i: int| 0 <= i < span(s, stop) ==> !stop(#[trigger] s[i]),
        span(s, stop) < s.len() ==> stop(s[span(s, stop)]),
    decreases s.len(),
{
    if s.len() > 0 && !stop(s[0]) {
        let rest = s.drop_first();
        lemma_span(rest, stop);
        assert forall|i: int| 0 <= i < span(s, stop) implies !stop(#[trigger] s[i]) by {
            if i > 0 {
                assert(rest[i - 1] == s[i]);
            }
        }
        if span(s, stop) < s.len() {
            assert(rest[span(rest, stop)] == s[span(s, stop)]);
        }
    }
}

/// A length with the properties that [`lemma_span`] states is the span.
pub proof fn lemma_span_unique(s: Seq<char>, stop: spec_fn(char) -> bool, n: int)
    requires
        0 <= n <= s.len(),
        forall|i: int| 0 <= i < n ==> !stop(#[trigger] s[i]),
        n < s.len() ==> stop(s[n]),
    ensures
        span(s, stop) == n,
{
    lemma_span(s, stop);
    let k = span(s, stop);
    if k < n {
        assert(!stop(s[k]));
    } else if n < k {
        assert(!stop(s[n]));
    }
}

/// The text without the white space at its start.
pub open spec fn trimmed_start(s: Seq<char>) -> Seq<char> {
    s.skip(span(s, |c: char| !is_white_space(c)))
}

/// The text without the white space at its end.
pub open spec fn trimmed_end(s: Seq<char>) -> Seq<char>
    decreases s.len(),
{
    if s.len() > 0 && is_white_space(s.last()) {
        trimmed_end(s.drop_last())
    } else {
        s
    }
}

/// The text without the white space at either end.
pub open spec fn trimmed(s: Seq<char>) -> Seq<char> {
    trimmed_end(trimmed_start(s))
}

/// Whether a text holds nothing but white space.
pub open spec fn blank(s: Seq<char>) -> bool {
    forall|i: int| 0 <= i < s.len() ==> is_white_space(#[trigger] s[i])
}

proof fn lemma_trimmed_end_blank(s: Seq<char>)
    ensures
        trimmed_end(s).len() == 0 <==> blank(s),
    decreases s.len(),
{
    if s.len() > 0 {
        assert(s.last() == s[s.len() - 1]);
        if is_white_space(s.last()) {
            let init = s.drop_last();
            lemma_trimmed_end_blank(init);
            assert forall|i: int| blank(init) && 0 <= i < s.len() implies is_white_space(
                #[trigger] s[i],
            ) by {
                if i < init.len() {
                    assert(init[i] == s[i]);
                }
            }
            assert forall|i: int| blank(s) && 0 <= i < init.len() implies is_white_space(
                #[trigger] init[i],
            ) by {
                assert(init[i] == s[i]);
            }
        }
    }
}

/// Trimming leaves nothing exactly where there was nothing but white space.
pub proof fn lemma_trimmed_blank(s: Seq<char>)
    ensures
        trimmed(s).len() == 0 <==> blank(s),
{
    let stop = |c: char| !is_white_space(c);
    let n = span(s, stop);
    lemma_span(s, stop);
    let rest = s.skip(n);
    lemma_trimmed_end_blank(rest);
    assert forall|i: int| blank(rest) && 0 <= i < s.len() implies is_white_space(#[trigger] s[i]) by {
        if i < n {
            assert(!stop(s[i]));
        } else {
            assert(rest[i - n] == s[i]);
        }
    }
    assert forall|i: int| blank(s) && 0 <= i < rest.len() implies is_white_space(
        #[trigger] rest[i],
    ) by {
        assert(rest[i] == s[i + n]);
    }
}

/// Removes the white space at either end.
pub fn trim(s: &str) -> (r: &str)
    ensures
        r@ == trimmed(s@),
{
    let chars = chars_of(s);
    let ghost stop = |c: char| !is_white_space(c);
    let mut start: usize = 0;
    while start < chars.len() && chars[start].is_whitespace()
        invariant
            start <= chars.len(),
            chars@ == s@,
            forall|i: int| 0 <= i < start ==> is_white_space(#[trigger] s@[i]),
        decreases chars.len() - start,
    {
        start += 1;
    }
    proof {
        lemma_span_unique(s@, stop, start as int);
    }
    let mut end: usize = chars.len();
    proof {
        assert(s@.subrange(start as int, end as int) == trimmed_start(s@));
    }
    while end > start && chars[end - 1].is_whitespace()
        invariant
            start <= end <= chars.len(),
            chars@ == s@,
            trimmed_end(s@.subrange(start as int, end as int)) == trimmed(s@),
        decreases end - start,
    {
        proof {
            let piece = s@.subrange(start as int, end as int);
            assert(piece.drop_last() == s@.subrange(start as int, end - 1));
        }
        end -= 1;
    }
    s.substring_char(start, end)
}

/// Whether a text holds nothing but white space.
pub fn is_blank(s: &str) -> (r: bool)
    ensures
        r == blank(s@),
{
    proof {
        lemma_trimmed_blank(s@);
    }
    trim(s).is_empty()
}

/// The maximal runs of characters that are not white space, from left to right.
pub open spec fn words(s: Seq<char>) -> Seq<Seq<char>>
    decreases s.len(),
{
    if s.len() == 0 {
        seq![]
    } else if is_white_space(s[0]) {
        words(s.drop_first())
    } else {
        let n = 1 + span(s.drop_first(), |c: char| is_white_space(c));
        proof {
            lemma_span(s.drop_first(), |c: char| is_white_space(c));
        }
        seq![s.take(n)] + words(s.skip(n))
    }
}

/// Splits a text at its white space.
pub fn split_words(s: &str) -> (r: Vec<String>)
    ensures
        r.deep_view() == words(s@),
{
    let chars = chars_of(s);
    let ghost stop = |c: char| is_white_space(c);
    let mut r: Vec<String> = Vec::new();
    let mut i: usize = 0;
    assert(s@.skip(0) == s@);
    assert(r.deep_view() + words(s@) == words(s@));
    while i < chars.len()
        invariant
            i <= chars.len(),
            chars@ == s@,
            stop == (|c: char| is_white_space(c)),
            r.deep_view() + words(s@.skip(i as int)) == words(s@),
        decreases chars.len() - i,
    {
        let ghost tail = s@.skip(i as int);
        if chars[i].is_whitespace() {
            proof {
                assert(tail.drop_first() == s@.skip(i + 1));
            }
            i += 1;
        } else {
            let ghost start = i as int;
            let mut word = String::new();
            word.push(chars[i]);
            i += 1;
            while i < chars.len() && !chars[i].is_whitespace()
                invariant
                    0 <= start < i <= chars.len(),
                    chars@ == s@,
                    word@ == s@.subrange(start, i as int),
                    forall|j: int| start < j < i ==> !is_white_space(#[trigger] s@[j]),
                decreases chars.len() - i,
            {
                word.push(chars[i]);
                i += 1;
            }
            let ghost before = r.deep_view();
            r.push(word);
            proof {
                let n = i - start;
                let rest = tail.drop_first();
                assert forall|j: int| 0 <= j < n - 1 implies !stop(#[trigger] rest[j]) by {
                    assert(rest[j] == s@[start + 1 + j]);
                }
                if n - 1 < rest.len() {
                    assert(rest[n - 1] == s@[i as int]);
                }
                lemma_span_unique(rest, stop, n - 1);
                assert(tail.take(n) == s@.subrange(start, i as int));
                assert(tail.skip(n) == s@.skip(i as int));
                assert(words(tail) == seq![word@] + words(s@.skip(i as int)));
                assert(r.deep_view() == before.push(word@));
                assert(r.deep_view() + words(s@.skip(i as int)) == before + words(tail));
            }
        }
    }
    assert(words(s@.skip(i as int)) == Seq::<Seq<char>>::empty());
    r
}

/// The test for one character.
pub open spec fn equals(sep: char) -> spec_fn(char) -> bool {
    |c: char| c == sep
}

/// The pieces between the occurrences of `sep`, from left to right: always at
/// least one, and empty ones are kept.
pub open spec fn pieces(s: Seq<char>, sep: char) -> Seq<Seq<char>>
    decreases s.len(),
{
    let n = span(s, equals(sep));
    if n < s.len() {
        proof {
            lemma_span(s, equals(sep));
        }
        seq![s.take(n)] + pieces(s.skip(n + 1), sep)
    } else {
        seq![s]
    }
}

/// Splits a text at every occurrence of `sep`.
pub fn split_pieces(s: &str, sep: char) -> (r: Vec<String>)
    ensures
        r.deep_view() == pieces(s@, sep),
{
    let chars = chars_of(s);
    let ghost stop = equals(sep);
    let mut r: Vec<String> = Vec::new();
    let mut piece = String::new();
    let mut i: usize = 0;
    let ghost mut start: int = 0;
    assert(s@.skip(0) == s@);
    assert(r.deep_view() + pieces(s@, sep) == pieces(s@, sep));
    while i < chars.len()
        invariant
            0 <= start <= i <= chars.len(),
            chars@ == s@,
            stop == equals(sep),
            piece@ == s@.subrange(start, i as int),
            forall|j: int| start <= j < i ==> #[trigger] s@[j] != sep,
            r.deep_view() + pieces(s@.skip(start), sep) == pieces(s@, sep),
        decreases chars.len() - i,
    {
        if chars[i] == sep {
            let ghost tail = s@.skip(start);
            let ghost before = r.deep_view();
            let ghost done = piece@;
            r.push(piece);
            piece = String::new();
            proof {
                let n = i - start;
                assert forall|j: int| 0 <= j < n implies !stop(#[trigger] tail[j]) by {
                    assert(tail[j] == s@[start + j]);
                }
                assert(tail[n] == s@[i as int]);
                lemma_span_unique(tail, stop, n);
                assert(tail.take(n) == done);
                assert(tail.skip(n + 1) == s@.skip(i + 1));
                assert(r.deep_view() == before.push(done));
                assert(r.deep_view() + pieces(s@.skip(i + 1), sep) == before + pieces(tail, sep));
                start = i + 1;
            }
        } else {
            piece.push(chars[i]);
        }
        i += 1;
    }
    proof {
        let tail = s@.skip(start);
        assert forall|j: int| 0 <= j < tail.len() implies !stop(#[trigger] tail[j]) by {
            assert(tail[j] == s@[start + j]);
        }
        lemma_span_unique(tail, stop, tail.len() as int);
        assert(piece@ == tail);
    }
    let ghost before = r.deep_view();
    r.push(piece);
    proof {
        assert(r.deep_view() == before.push(piece@));
        assert(r.deep_view() == before + pieces(s@.skip(start), sep));
    }
    r
}

/// The code point of a character, with the letters `A` to `Z` read as `a` to `z`.
pub open spec fn folded(c: char) -> u32 {
    if 'A' <= c <= 'Z' {
        (c as u32 + 32) as u32
    } else {
        c as u32
    }
}

/// Whether two texts agree up to the case of ASCII letters.
pub open spec fn same_ignoring_case(a: Seq<char>, b: Seq<char>) -> bool {
    &&& a.len() == b.len()
    &&& forall|i: int| 0 <= i < a.len() ==> folded(#[trigger] a[i]) == folded(b[i])
}

fn fold(c: char) -> (r: u32)
    ensures
        r == folded(c),
{
    if 'A' <= c && c <= 'Z' {
        c as u32 + 32
    } else {
        c as u32
    }
}

/// Compares two texts, ignoring the case of ASCII letters.
pub fn eq_ignore_ascii_case(a: &str, b: &str) -> (r: bool)
    ensures
        r == same_ignoring_case(a@, b@),
{
    let left = chars_of(a);
    let right = chars_of(b);
    if left.len() != right.len() {
        return false;
    }
    let mut i: usize = 0;
    while i < left.len()
        invariant
            i <= left.len(),
            left.len() == right.len(),
            left@ == a@,
            right@ == b@,
            forall|j: int| 0 <= j < i ==> folded(#[trigger] a@[j]) == folded(b@[j]),
        decreases left.len() - i,
    {
        if fold(left[i]) != fold(right[i]) {
            assert(folded(a@[i as int]) != folded(b@[i as int]));
            return false;
        }
        i += 1;
    }
    true
}

/// Whether two texts are the same.
pub fn same(a: &str, b: &str) -> (r: bool)
    ensures
        r == (a@ == b@),
{
    a.to_owned() == b.to_owned()
}

/// The numeral of a digit.
pub open spec fn digit(d: nat) -> char {
    (0x30 + d) as char
}

/// The decimal numeral of a number, without leading zeros.
pub open spec fn decimal(n: nat) -> Seq<char>
    decreases n,
{
    if n < 10 {
        seq![digit(n)]
    } else {
        decimal(n / 10).push(digit(n % 10))
    }
}

/// Writes a number in decimal.
pub fn numeral(n: usize) -> (r: String)
    ensures
        r@ == decimal(n as nat),
    decreases n,
{
    let d: u8 = 0x30 + (n % 10) as u8;
    if n < 10 {
        let mut r = String::new();
        r.push(d as char);
        assert(r@ == decimal(n as nat));
        r
    } else {
        let mut r = numeral(n / 10);
        r.push(d as char);
        r
    }
}

/// The three given texts, one after the other.
pub fn join3(a: &str, b: &str, c: &str) -> (r: String)
    ensures
        r@ == a@ + b@ + c@,
{
    let mut r = a.to_owned();
    r.append(b);
    r.append(c);
    r
}

}
