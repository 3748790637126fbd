//! Where a token stands in the headers of a request.

use vstd::prelude::*;
use vstd::string::*;
use vstd::utf8::*;

use crate::config::{header_name, header_prefix, TokenSourceConfig};
use crate::text::{eq_ignore_ascii_case, folded, same_ignoring_case};

verus! {

broadcast use vstd::string::group_string_axioms;

/// The value of the first header of that name, names being compared without regard
/// to ASCII case.
pub open spec fn header_value(headers: Seq<(String, String)>, name: Seq<char>) -> Option<Seq<char>>
    decreases headers.len(),
{
    if headers.len() == 0 {
        None
    } else if same_ignoring_case(headers[0].0@, name) {
        Some(headers[0].1@)
    } else {
        header_value(headers.drop_first(), name)
    }
}

/// What follows a prefix in a text that starts with it, up to ASCII case.
pub open spec fn stripped(s: Seq<char>, prefix: Seq<char>) -> Option<Seq<char>> {
    if prefix.len() <= s.len() && same_ignoring_case(s.take(prefix.len() as int), prefix) {
        Some(s.skip(prefix.len() as int))
    } else {
        None
    }
}

/// Whether a text that is at least as long as the prefix, in bytes, can be cut after
/// as many bytes as the prefix has: no character may lie across the cut.
pub open spec fn can_cut(s: Seq<char>, prefix: Seq<char>) -> bool {
    let mid = encode_utf8(prefix).len();
    mid <= encode_utf8(s).len() ==> is_char_boundary(encode_utf8(s), mid as int)
}

/// The token in the headers: the value of the header that the source names, without
/// the prefix that it names. An empty one is none.
pub open spec fn token_in(source: TokenSourceConfig, headers: Seq<(String, String)>) -> Option<
    Seq<char>,
> {
    match header_value(headers, header_name(source)) {
        Some(value) => match stripped(value, header_prefix(source)) {
            Some(token) => if token.len() > 0 {
                Some(token)
            } else {
                None
            },
            None => None,
        },
        None => None,
    }
}

/// Whether the header that the source names, if it is there, can be cut after as many
/// bytes as the prefix has.
pub open spec fn readable(source: TokenSourceConfig, headers: Seq<(String, String)>) -> bool {
    header_value(headers, header_name(source)) matches Some(value) ==> can_cut(
        value,
        header_prefix(source),
    )
}

/// The view of a text that may be absent.
pub open spec fn text_of(s: Option<&str>) -> Option<Seq<char>> {
    match s {
        Some(s) => Some(s@),
        None => None,
    }
}

/// The value of the first header of that name.
pub fn lookup_header<'a>(headers: &'a [(String, String)], target: &str) -> (r: Option<&'a str>)
    ensures
        text_of(r) == header_value(headers@, target@),
{
    let mut i: usize = 0;
    assert(headers@.skip(0) == headers@);
    while i < headers.len()
        invariant
            i <= headers@.len(),
            header_value(headers@.skip(i as int), target@) == header_value(headers@, target@),
        decreases headers@.len() - i,
    {
        assert(headers@.skip(i as int).drop_first() == headers@.skip(i + 1));
        if eq_ignore_ascii_case(headers[i].0.as_str(), target) {
            return Some(headers[i].1.as_str());
        }
        i += 1;
    }
    None
}

proof fn lemma_encode_concat(a: Seq<char>, b: Seq<char>)
    ensures
        encode_utf8(a + b) == encode_utf8(a) + encode_utf8(b),
    decreases a.len(),
{
    if a.len() == 0 {
        assert(a + b == b);
    } else {
        assert((a + b).drop_first() == a.drop_first() + b);
        lemma_encode_concat(a.drop_first(), b);
    }
}

proof fn lemma_folded_width(a: Seq<char>, b: Seq<char>)
    requires
        same_ignoring_case(a, b),
    ensures
        encode_utf8(a).len() == encode_utf8(b).len(),
    decreases a.len(),
{
    if a.len() > 0 {
        assert(folded(a[0]) == folded(b[0]));
        char_is_scalar(a[0]);
        char_is_scalar(b[0]);
        assert forall|i: int| 0 <= i < a.len() - 1 implies folded(#[trigger] a.drop_first()[i])
            == folded(b.drop_first()[i]) by {
            assert(folded(a[i + 1]) == folded(b[i + 1]));
        }
        lemma_folded_width(a.drop_first(), b.drop_first());
    }
}

/// Where a text starts with the prefix, the cut falls right behind it.
proof fn lemma_cut_at_prefix(s: Seq<char>, prefix: Seq<char>)
    requires
        stripped(s, prefix) is Some,
    ensures
        encode_utf8(prefix).len() <= encode_utf8(s).len(),
        encode_utf8(s).subrange(0, encode_utf8(prefix).len() as int) == encode_utf8(
            s.take(prefix.len() as int),
        ),
{
    let n = prefix.len() as int;
    lemma_folded_width(s.take(n), prefix);
    lemma_encode_concat(s.take(n), s.skip(n));
    assert(s.take(n) + s.skip(n) == s);
    assert(encode_utf8(s).subrange(0, encode_utf8(prefix).len() as int) =~= encode_utf8(s.take(n)));
}

/// A text can be cut between any two of its characters.
pub proof fn lemma_cut_between_chars(s: Seq<char>, n: int)
    requires
        0 <= n <= s.len(),
    ensures
        encode_utf8(s.take(n)).len() <= encode_utf8(s).len(),
        is_char_boundary(encode_utf8(s), encode_utf8(s.take(n)).len() as int),
    decreases n,
{
    encode_utf8_valid_utf8(s);
    if n > 0 {
        encode_utf8_first_scalar(s);
        let rest = s.drop_first();
        assert(s.take(n).drop_first() == rest.take(n - 1));
        lemma_cut_between_chars(rest, n - 1);
        assert(pop_first_scalar(encode_utf8(s)) == encode_utf8(rest));
        assert(s.take(n)[0] == s[0]);
    }
}

/// A text that starts with the prefix, up to ASCII case, can be cut behind it.
pub proof fn law_prefixed_can_be_cut(s: Seq<char>, prefix: Seq<char>)
    requires
        stripped(s, prefix) is Some,
    ensures
        can_cut(s, prefix),
{
    lemma_folded_width(s.take(prefix.len() as int), prefix);
    lemma_cut_between_chars(s, prefix.len() as int);
}

/// An ASCII text can be cut behind any prefix.
pub proof fn law_ascii_can_be_cut(s: Seq<char>, prefix: Seq<char>)
    requires
        is_ascii_chars(s),
    ensures
        can_cut(s, prefix),
{
    let mid = encode_utf8(prefix).len();
    is_ascii_chars_encode_utf8(s);
    if mid <= s.len() {
        is_ascii_chars_encode_utf8(s.take(mid as int));
        lemma_cut_between_chars(s, mid as int);
    }
}

/// What follows a prefix in a text that starts with it, up to ASCII case.
pub fn strip_ascii_prefix<'a>(s: &'a str, prefix: &str) -> (r: Option<&'a str>)
    requires
        can_cut(s@, prefix@),
    ensures
        text_of(r) == stripped(s@, prefix@),
{
    proof {
        if stripped(s@, prefix@) is Some {
            lemma_cut_at_prefix(s@, prefix@);
        }
    }
    let mid: usize = prefix.as_bytes().len();
    if s.as_bytes().len() < mid {
        return None;
    }
    proof {
        encode_utf8_valid_utf8(s@);
    }
    let (head, tail) = s.split_at(mid);
    proof {
        let bytes = encode_utf8(s@);
        decode_utf8_split(bytes, mid as int);
        encode_utf8_decode_utf8(s@);
        encode_utf8_decode_utf8(head@);
        encode_utf8_decode_utf8(tail@);
        encode_utf8_decode_utf8(s@.take(prefix@.len() as int));
        assert(s@ == head@ + tail@);
        if same_ignoring_case(head@, prefix@) {
            assert(s@.take(prefix@.len() as int) == head@);
            assert(s@.skip(prefix@.len() as int) == tail@);
        }
    }
    if eq_ignore_ascii_case(head, prefix) {
        Some(tail)
    } else {
        None
    }
}

/// Tells whether [`extract_token`] can be called.
pub fn can_extract_token(token_source: &TokenSourceConfig, headers: &[(String, String)]) -> (r: bool)
    ensures
        r == readable(*token_source, headers@),
{
    match lookup_header(headers, token_source.effective_header_name()) {
        Some(value) => {
            let mid: usize = token_source.effective_header_prefix().as_bytes().len();
            value.as_bytes().len() < mid || value.is_char_boundary(mid)
        },
        None => true,
    }
}

/// The token in the headers of a request.
pub fn extract_token(token_source: &TokenSourceConfig, headers: &[(String, String)]) -> (r: Option<
    String,
>)
    requires
        readable(*token_source, headers@),
    ensures
        match r {
            Some(token) => token_in(*token_source, headers@) == Some(token@),
            None => token_in(*token_source, headers@) is None,
        },
{
    let value = match lookup_header(headers, token_source.effective_header_name()) {
        Some(value) => value,
        None => return None,
    };
    let prefix = token_source.effective_header_prefix();
    let rest = if prefix.is_empty() {
        assert(stripped(value@, prefix@) == Some(value@)) by {
            assert(value@.take(0) == prefix@);
            assert(value@.skip(0) == value@);
        }
        value
    } else {
        match strip_ascii_prefix(value, prefix) {
            Some(rest) => rest,
            None => return None,
        }
    };
    if rest.is_empty() {
        None
    } else {
        Some(rest.to_owned())
    }
}

}
