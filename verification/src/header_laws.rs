//! What the results of calls on the headers of a request satisfy, said of the results and
//! the arguments.

use vstd::prelude::*;
use vstd::utf8::*;

use crate::config::{header_name, header_prefix, TokenSourceConfig, TokenSourceKind};
use crate::header::{
    can_extract_token, extract_token, header_value, lookup_header, readable, strip_ascii_prefix,
    stripped, token_in,
};
use crate::text_laws::{alike, lemma_alike};

verus! {

broadcast use {vstd::string::group_string_axioms, vstd::seq_lib::group_seq_properties};

/// The header that carries a token: the configured one where the source is a custom header
/// and names one, and else `authorization`.
pub proof fn law_effective_header_name(source: TokenSourceConfig, r: &str)
    requires
        call_ensures(TokenSourceConfig::effective_header_name, (&source,), r),
    ensures
        r@ == header_name(source),
        source.kind is CustomHeader ==> (source.header_name matches Some(name) ==> r@ == name@),
        source.kind is AuthorizationBearer || source.header_name is None ==> r@
            == "authorization"@,
{
}

/// What stands before a token: the configured prefix where there is one, and else `Bearer `
/// in the authorization header and nothing in a custom one.
pub proof fn law_effective_header_prefix(source: TokenSourceConfig, r: &str)
    requires
        call_ensures(TokenSourceConfig::effective_header_prefix, (&source,), r),
    ensures
        r@ == header_prefix(source),
        source.header_prefix matches Some(prefix) ==> r@ == prefix@,
        source.header_prefix is None && source.kind is AuthorizationBearer ==> r@ == "Bearer "@,
        source.header_prefix is None && source.kind is CustomHeader ==> r@ == ""@,
{
}

/// The name of the header that a source takes tokens from.
pub open spec fn source_name(source: TokenSourceConfig) -> Seq<char> {
    match source.kind {
        TokenSourceKind::AuthorizationBearer => "authorization"@,
        TokenSourceKind::CustomHeader => match source.header_name {
            Some(name) => name@,
            None => "authorization"@,
        },
    }
}

/// What stands before a token in that header.
pub open spec fn source_prefix(source: TokenSourceConfig) -> Seq<char> {
    match source.header_prefix {
        Some(prefix) => prefix@,
        None => match source.kind {
            TokenSourceKind::AuthorizationBearer => "Bearer "@,
            TokenSourceKind::CustomHeader => ""@,
        },
    }
}

/// Whether the header at `i` is the first of that name, up to the case of ASCII letters.
pub open spec fn first_named(
    headers: Seq<(String, String)>,
    name: Seq<char>,
    i: int,
) -> bool {
    &&& 0 <= i < headers.len()
    &&& alike(headers[i].0@, name)
    &&& forall|j: int| 0 <= j < i ==> !alike((#[trigger] headers[j]).0@, name)
}

proof fn lemma_header_value(headers: Seq<(String, String)>, name: Seq<char>)
    ensures
        header_value(headers, name) is Some <==> exists|i: int| #[trigger]
            first_named(headers, name, i),
        forall|i: int| #[trigger]
            first_named(headers, name, i) ==> header_value(headers, name) == Some(headers[i].1@),
    decreases headers.len(),
{
    if headers.len() > 0 {
        let rest = headers.drop_first();
        lemma_alike(headers[0].0@, name);
        lemma_header_value(rest, name);
        if alike(headers[0].0@, name) {
            assert(first_named(headers, name, 0));
            assert forall|i: int| #[trigger] first_named(headers, name, i) implies i == 0 by {
                if i > 0 {
                    assert(!alike(headers[0].0@, name));
                }
            }
        } else {
            assert forall|i: int| #[trigger] first_named(rest, name, i) implies first_named(
                headers,
                name,
                i + 1,
            ) by {
                assert(headers[i + 1] == rest[i]);
                assert forall|j: int| 0 <= j < i + 1 implies !alike(
                    (#[trigger] headers[j]).0@,
                    name,
                ) by {
                    if j > 0 {
                        assert(rest[j - 1] == headers[j]);
                    }
                }
            }
            assert forall|i: int| #[trigger] first_named(headers, name, i) implies first_named(
                rest,
                name,
                i - 1,
            ) by {
                assert(rest[i - 1] == headers[i]);
                assert forall|j: int| 0 <= j < i - 1 implies !alike(
                    (#[trigger] rest[j]).0@,
                    name,
                ) by {
                    assert(rest[j] == headers[j + 1]);
                }
            }
            if header_value(headers, name) is Some {
                let i = choose|i: int| #[trigger] first_named(rest, name, i);
                assert(first_named(headers, name, i + 1));
            }
        }
    }
}

/// A header is looked up under its name, up to the case of ASCII letters, and the first
/// one counts.
pub proof fn law_lookup_header(headers: &[(String, String)], target: &str, r: Option<&str>)
    requires
        call_ensures(lookup_header, (headers, target), r),
    ensures
        r matches Some(value) ==> exists|i: int| #[trigger]
            first_named(headers@, target@, i) && value@ == headers@[i].1@,
        r is None ==> forall|i: int|
            0 <= i < headers@.len() ==> !alike((#[trigger] headers@[i]).0@, target@),
{
    lemma_header_value(headers@, target@);
    if r is None {
        lemma_none_named(headers@, target@);
    } else {
        let i = choose|i: int| #[trigger] first_named(headers@, target@, i);
        assert(first_named(headers@, target@, i));
    }
}

proof fn lemma_none_named(headers: Seq<(String, String)>, name: Seq<char>)
    requires
        header_value(headers, name) is None,
    ensures
        forall|i: int| 0 <= i < headers.len() ==> !alike((#[trigger] headers[i]).0@, name),
    decreases headers.len(),
{
    if headers.len() > 0 {
        lemma_alike(headers[0].0@, name);
        let rest = headers.drop_first();
        lemma_none_named(rest, name);
        assert forall|i: int| 0 <= i < headers.len() implies !alike(
            (#[trigger] headers[i]).0@,
            name,
        ) by {
            if i > 0 {
                assert(rest[i - 1] == headers[i]);
            }
        }
    }
}

proof fn lemma_stripped(s: Seq<char>, prefix: Seq<char>, rest: Seq<char>)
    ensures
        stripped(s, prefix) == Some(rest) <==> exists|head: Seq<char>|
            s == #[trigger] (head + rest) && alike(head, prefix),
{
    let n = prefix.len() as int;
    if n <= s.len() {
        lemma_alike(s.take(n), prefix);
        assert(s == s.take(n) + s.skip(n));
    }
    if exists|head: Seq<char>| s == #[trigger] (head + rest) && alike(head, prefix) {
        let head = choose|head: Seq<char>| s == #[trigger] (head + rest) && alike(head, prefix);
        assert(s.take(n) == head);
        assert(s.skip(n) == rest);
    }
}

/// What is left of a text without a prefix is what follows something that is the prefix up
/// to the case of ASCII letters; without such a start there is nothing.
pub proof fn law_strip_ascii_prefix(s: &str, prefix: &str, r: Option<&str>)
    requires
        call_ensures(strip_ascii_prefix, (s, prefix), r),
    ensures
        r matches Some(rest) ==> exists|head: Seq<char>|
            s@ == #[trigger] (head + rest@) && alike(head, prefix@),
        r is None ==> forall|head: Seq<char>, rest: Seq<char>|
            s@ == #[trigger] (head + rest) ==> !alike(head, prefix@),
{
    match r {
        Some(rest) => {
            lemma_stripped(s@, prefix@, rest@);
        },
        None => {
            assert forall|head: Seq<char>, rest: Seq<char>|
                s@ == #[trigger] (head + rest) implies !alike(head, prefix@) by {
                lemma_stripped(s@, prefix@, rest);
            }
        },
    }
}

/// Whether that is the token in the headers: it is not empty, and in the first header of
/// the source's name it follows the source's prefix, up to the case of ASCII letters.
pub open spec fn is_token(
    source: TokenSourceConfig,
    headers: Seq<(String, String)>,
    token: Seq<char>,
) -> bool {
    &&& token.len() > 0
    &&& exists|i: int, head: Seq<char>|
        {
            &&& #[trigger] first_named(headers, source_name(source), i)
            &&& headers[i].1@ == #[trigger] (head + token)
            &&& alike(head, source_prefix(source))
        }
}

/// The token in the headers is the one that follows the prefix in the first header of the
/// source's name.
pub proof fn law_token_in(
    source: TokenSourceConfig,
    headers: Seq<(String, String)>,
    token: Seq<char>,
)
    ensures
        token_in(source, headers) == Some(token) <==> is_token(source, headers, token),
{
    let name = source_name(source);
    let prefix = source_prefix(source);
    assert(name == header_name(source));
    assert(prefix == header_prefix(source));
    lemma_header_value(headers, name);
    if token_in(source, headers) == Some(token) {
        let i = choose|i: int| #[trigger] first_named(headers, name, i);
        lemma_stripped(headers[i].1@, prefix, token);
        let head = choose|head: Seq<char>|
            headers[i].1@ == #[trigger] (head + token) && alike(head, prefix);
        assert(first_named(headers, name, i) && headers[i].1@ == head + token);
    }
    if is_token(source, headers, token) {
        let (i, head) = choose|i: int, head: Seq<char>|
            {
                &&& #[trigger] first_named(headers, name, i)
                &&& headers[i].1@ == #[trigger] (head + token)
                &&& alike(head, prefix)
            };
        assert(headers[i].1@ == head + token);
        lemma_stripped(headers[i].1@, prefix, token);
    }
}

/// The token that is extracted is the one in the headers, and there is none where the
/// headers hold none.
pub proof fn law_extract_token(
    source: TokenSourceConfig,
    headers: &[(String, String)],
    r: Option<String>,
)
    requires
        call_ensures(extract_token, (&source, headers), r),
    ensures
        r matches Some(token) ==> is_token(source, headers@, token@),
        r is None ==> forall|token: Seq<char>| !#[trigger] is_token(source, headers@, token),
{
    match r {
        Some(token) => {
            law_token_in(source, headers@, token@);
        },
        None => {
            assert forall|token: Seq<char>| !#[trigger] is_token(source, headers@, token) by {
                law_token_in(source, headers@, token);
            }
        },
    }
}

pub proof fn lemma_readable(source: TokenSourceConfig, headers: Seq<(String, String)>)
    ensures
        readable(source, headers) <==> forall|i: int| #[trigger]
            first_named(headers, source_name(source), i) ==> {
                let bytes = encode_utf8(headers[i].1@);
                let mid = encode_utf8(source_prefix(source)).len();
                mid <= bytes.len() ==> is_char_boundary(bytes, mid as int)
            },
{
    let name = source_name(source);
    assert(name == header_name(source));
    assert(source_prefix(source) == header_prefix(source));
    lemma_header_value(headers, name);
    if header_value(headers, name) is Some {
        let i = choose|i: int| #[trigger] first_named(headers, name, i);
        assert(first_named(headers, name, i));
    }
}

/// A token can be extracted exactly where the first header of the source's name, if there
/// is one, is shorter in bytes than the prefix or has no character across the end of as
/// many bytes.
pub proof fn law_can_extract_token(
    source: TokenSourceConfig,
    headers: &[(String, String)],
    r: bool,
)
    requires
        call_ensures(can_extract_token, (&source, headers), r),
    ensures
        r <==> forall|i: int| #[trigger]
            first_named(headers@, source_name(source), i) ==> {
                let bytes = encode_utf8(headers@[i].1@);
                let mid = encode_utf8(source_prefix(source)).len();
                mid <= bytes.len() ==> is_char_boundary(bytes, mid as int)
            },
{
    lemma_readable(source, headers@);
}

}
