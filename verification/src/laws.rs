//! What holds of the resolver as a whole.

use pasetors::errors::Error;
use vstd::prelude::*;

use crate::claims::{attributes_from, listed, lists_at, mapped, text_at, texts_among};
use crate::config::{
    config_fault, first_repeated, header_name, header_prefix, hex_bytes, hex_value,
    is_hex_digit, key_fault, key_text, repeated, sound_at, sound_up_to, spelled_bytes,
    valid_config, valid_key, valid_trust_level, IssuerConfig, KeyMaterialConfig, PasetoConfig,
    ResolutionConfig, TokenSourceConfig, V4_KEY_BYTES,
};
use crate::error::{ConfigError, HexError, KeyError};
use crate::header::{header_value, stripped, token_in};
use crate::identity::{Identity, Outcome};
use crate::issuer::{CompiledIssuer, CompiledKey};
use crate::json::{at_path, lookup, member, walk, JsonTree};
use crate::paseto::{
    by_clock, claim_is, claim_is_text, claim_matches, in_time, law_fault_free, local_key_bytes,
    local_token, public_key_bytes, public_token, sealed_claims, signed_claims, Clock,
};
use crate::plugin::{loaded, outcome_at, settled, verdicts, Inner};
use crate::text::{
    blank, equals, folded, is_white_space, lemma_span, lemma_span_unique, lemma_trimmed_blank,
    pieces, same_ignoring_case, span, trimmed, trimmed_end, trimmed_start, words,
};
use crate::verify::{asked_for, audience_allowed, check_at, verdict, Checked};

verus! {

broadcast use {vstd::string::group_string_axioms, vstd::seq_lib::group_seq_properties};

/// Whether a token carries claims under the key of an issuer: it is a token for the
/// purpose of the key, and was signed or encrypted with it.
pub open spec fn carries(
    ci: CompiledIssuer,
    token: Seq<char>,
    claims: Map<Seq<char>, JsonTree>,
) -> bool {
    match ci.key {
        CompiledKey::Public(key) => {
            &&& "v4.public."@.is_prefix_of(token)
            &&& public_token(token) matches Ok(parts)
            &&& signed_claims(public_key_bytes(key), parts) == Ok::<_, Error>(claims)
        },
        CompiledKey::Local(key) => {
            &&& "v4.local."@.is_prefix_of(token)
            &&& local_token(token) matches Ok(parts)
            &&& sealed_claims(local_key_bytes(key), parts) == Ok::<_, Error>(claims)
        },
    }
}

/// Whether claims name an audience that is listed for an issuer.
pub open spec fn names_audience(ci: CompiledIssuer, claims: Map<Seq<char>, JsonTree>) -> bool {
    exists|k: int|
        0 <= k < ci.audiences@.len() && claim_is(claims, "aud"@, (#[trigger] ci.audiences@[k])@)
}

/// Whether a token passes every check of an issuer, the clock aside.
pub open spec fn passes(
    ci: CompiledIssuer,
    token: Seq<char>,
    claims: Map<Seq<char>, JsonTree>,
) -> bool {
    &&& carries(ci, token, claims)
    &&& claim_is(claims, "iss"@, ci.issuer@)
    &&& ci.audiences@.len() > 0 ==> names_audience(ci, claims)
    &&& claim_is_text(claims, "exp"@)
    &&& claim_is_text(claims, "nbf"@)
    &&& claim_is_text(claims, "iat"@)
}

/// Whether a token gives a caller an identity, as far as one issuer is concerned: it
/// passes every check, and names a subject.
pub open spec fn entitles(
    ci: CompiledIssuer,
    token: Seq<char>,
    claims: Map<Seq<char>, JsonTree>,
) -> bool {
    &&& passes(ci, token, claims)
    &&& text_at(JsonTree::Object(claims), ci.claim_mappings.subject_claim@) matches Some(subject)
        && !blank(subject)
}

/// With one issuer a token that carries claims is accepted exactly where it entitles the
/// caller and the clock agrees with it, and then comes to what its claims map to.
pub proof fn law_accepted_iff_entitled(
    ci: CompiledIssuer,
    token: Seq<char>,
    claims: Map<Seq<char>, JsonTree>,
    clock: Clock,
    resolution: ResolutionConfig,
)
    requires
        carries(ci, token, claims),
    ensures
        verdict(ci, token, clock, resolution) is Resolved <==> entitles(ci, token, claims)
            && in_time(claims, clock),
        verdict(ci, token, clock, resolution) is Resolved ==> verdict(ci, token, clock, resolution)
            == mapped(ci, JsonTree::Object(claims), resolution),
{
    let asked = asked_for(ci);
    law_fault_free(claims, asked, clock);
    lemma_audience_checked(ci, claims);
}

/// What is asked of the audience at once and afterwards is that a listed one is named.
pub proof fn lemma_audience_checked(ci: CompiledIssuer, claims: Map<Seq<char>, JsonTree>)
    ensures
        claim_matches(claims, "aud"@, asked_for(ci).audience) && audience_allowed(
            ci,
            JsonTree::Object(claims),
        ) <==> (ci.audiences@.len() > 0 ==> names_audience(ci, claims)),
{
    let listed = ci.audiences.deep_view();
    if ci.audiences@.len() == 1 {
        if claim_is(claims, "aud"@, ci.audiences@[0]@) {
            assert(names_audience(ci, claims));
        }
    } else if ci.audiences@.len() > 1 {
        if audience_allowed(ci, JsonTree::Object(claims)) {
            let audience = member(JsonTree::Object(claims), "aud"@)->0->Text_0;
            let k = choose|k: int| 0 <= k < listed.len() && listed[k] == audience;
            assert(listed[k] == ci.audiences@[k]@);
            assert(claim_is(claims, "aud"@, ci.audiences@[k]@));
        }
        if names_audience(ci, claims) {
            let k = choose|k: int|
                0 <= k < ci.audiences@.len() && claim_is(
                    claims,
                    "aud"@,
                    (#[trigger] ci.audiences@[k])@,
                );
            assert(listed[k] == ci.audiences@[k]@);
            assert(listed.contains(ci.audiences@[k]@));
        }
    }
}

/// One issuer accepts a token only where the token entitles the caller and had not expired
/// by the clock; in every other case the token is refused.
pub proof fn law_accepted_is_entitled(
    ci: CompiledIssuer,
    token: Seq<char>,
    clock: Clock,
    resolution: ResolutionConfig,
)
    ensures
        verdict(ci, token, clock, resolution) is Resolved ==> exists|
            claims: Map<Seq<char>, JsonTree>,
        | #[trigger]
            entitles(ci, token, claims) && in_time(claims, clock) && verdict(
                ci,
                token,
                clock,
                resolution,
            ) == mapped(ci, JsonTree::Object(claims), resolution),
        verdict(ci, token, clock, resolution) is Resolved || verdict(
            ci,
            token,
            clock,
            resolution,
        ) is Invalid,
{
    if verdict(ci, token, clock, resolution) is Resolved {
        let claims = check_at(ci, token, clock)->claims->Object_0;
        assert(carries(ci, token, claims));
        law_accepted_iff_entitled(ci, token, claims, clock, resolution);
        assert(entitles(ci, token, claims));
    }
}

/// A token that passes every check, and with which the clock agrees, is refused only for
/// its subject: what it comes to is what its claims map to.
pub proof fn law_passing_is_mapped(
    ci: CompiledIssuer,
    token: Seq<char>,
    claims: Map<Seq<char>, JsonTree>,
    clock: Clock,
    resolution: ResolutionConfig,
)
    requires
        passes(ci, token, claims),
        in_time(claims, clock),
    ensures
        verdict(ci, token, clock, resolution) == mapped(ci, JsonTree::Object(claims), resolution),
{
    law_fault_free(claims, asked_for(ci), clock);
    lemma_audience_checked(ci, claims);
}

/// A token that passes every check, and with which the clock does not agree, is refused
/// with a reason that says so.
pub proof fn law_clock_refuses(
    ci: CompiledIssuer,
    token: Seq<char>,
    claims: Map<Seq<char>, JsonTree>,
    clock: Clock,
)
    requires
        passes(ci, token, claims),
        !in_time(claims, clock),
    ensures
        check_at(ci, token, clock) matches Checked::Rejected { error } && by_clock(error),
{
    law_fault_free(claims, asked_for(ci), clock);
    lemma_audience_checked(ci, claims);
}

/// Whether two issuers differ in their audiences at most.
pub open spec fn alike_but_for_audiences(a: CompiledIssuer, b: CompiledIssuer) -> bool {
    &&& a.issuer@ == b.issuer@
    &&& a.key == b.key
    &&& a.claim_mappings == b.claim_mappings
}

/// At the same readings of the clock, a token is accepted with listed audiences exactly
/// where it is accepted with none listed and names one of them, and the identity is the
/// same. Where none is listed, the audience is not looked at.
pub proof fn law_audience_membership(
    ci: CompiledIssuer,
    unlisted: CompiledIssuer,
    token: Seq<char>,
    claims: Map<Seq<char>, JsonTree>,
    clock: Clock,
    resolution: ResolutionConfig,
)
    requires
        alike_but_for_audiences(ci, unlisted),
        unlisted.audiences@.len() == 0,
        carries(ci, token, claims),
    ensures
        verdict(ci, token, clock, resolution) is Resolved <==> verdict(
            unlisted,
            token,
            clock,
            resolution,
        ) is Resolved && (ci.audiences@.len() == 0 || names_audience(ci, claims)),
        verdict(ci, token, clock, resolution) is Resolved ==> verdict(ci, token, clock, resolution)
            == verdict(unlisted, token, clock, resolution),
{
    law_accepted_iff_entitled(ci, token, claims, clock, resolution);
    law_accepted_iff_entitled(unlisted, token, claims, clock, resolution);
}

/// At the same readings of the clock, neither the order nor the number of times in which
/// audiences are listed matters.
pub proof fn law_audience_order(
    a: CompiledIssuer,
    b: CompiledIssuer,
    token: Seq<char>,
    clock: Clock,
    resolution: ResolutionConfig,
)
    requires
        alike_but_for_audiences(a, b),
        forall|name: Seq<char>| #[trigger]
            a.audiences.deep_view().contains(name) <==> b.audiences.deep_view().contains(name),
    ensures
        verdict(a, token, clock, resolution) is Resolved <==> verdict(
            b,
            token,
            clock,
            resolution,
        ) is Resolved,
        verdict(a, token, clock, resolution) is Resolved ==> verdict(a, token, clock, resolution)
            == verdict(b, token, clock, resolution),
{
    lemma_audience_order(a, b, token, clock, resolution);
    lemma_audience_order(b, a, token, clock, resolution);
}

proof fn lemma_audience_order(
    a: CompiledIssuer,
    b: CompiledIssuer,
    token: Seq<char>,
    clock: Clock,
    resolution: ResolutionConfig,
)
    requires
        alike_but_for_audiences(a, b),
        forall|name: Seq<char>| #[trigger]
            a.audiences.deep_view().contains(name) <==> b.audiences.deep_view().contains(name),
    ensures
        verdict(a, token, clock, resolution) is Resolved ==> verdict(a, token, clock, resolution)
            == verdict(b, token, clock, resolution),
{
    if verdict(a, token, clock, resolution) is Resolved {
        law_accepted_is_entitled(a, token, clock, resolution);
        let claims = choose|claims: Map<Seq<char>, JsonTree>| #[trigger]
            entitles(a, token, claims) && in_time(claims, clock) && verdict(
                a,
                token,
                clock,
                resolution,
            ) == mapped(a, JsonTree::Object(claims), resolution);
        lemma_listed_in(a, b, claims);
        lemma_listed_in(b, a, claims);
        assert(entitles(b, token, claims));
        law_accepted_iff_entitled(b, token, claims, clock, resolution);
    }
}

proof fn lemma_listed_in(a: CompiledIssuer, b: CompiledIssuer, claims: Map<Seq<char>, JsonTree>)
    requires
        forall|name: Seq<char>| #[trigger]
            a.audiences.deep_view().contains(name) <==> b.audiences.deep_view().contains(name),
    ensures
        a.audiences@.len() > 0 ==> b.audiences@.len() > 0,
        names_audience(a, claims) ==> names_audience(b, claims),
{
    let from = a.audiences.deep_view();
    let to = b.audiences.deep_view();
    if a.audiences@.len() > 0 {
        assert(from.contains(from[0]));
        assert(to.contains(from[0]));
    }
    if names_audience(a, claims) {
        let k = choose|k: int|
            0 <= k < a.audiences@.len() && claim_is(claims, "aud"@, (#[trigger] a.audiences@[k])@);
        assert(from[k] == a.audiences@[k]@);
        assert(from.contains(from[k]));
        assert(to.contains(from[k]));
        let m = choose|m: int| 0 <= m < to.len() && to[m] == from[k];
        assert(to[m] == b.audiences@[m]@);
        assert(claim_is(claims, "aud"@, b.audiences@[m]@));
    }
}

/// A token that verified carries claims, and they can be read; and it is never refused
/// for not being of the purpose that its key is not for.
pub proof fn law_verified_is_readable(ci: CompiledIssuer, token: Seq<char>, clock: Clock)
    ensures
        !(check_at(ci, token, clock) is NoClaims),
        !(check_at(ci, token, clock) is Unreadable),
        check_at(ci, token, clock) is NotPublic ==> ci.key is Public,
        check_at(ci, token, clock) is NotLocal ==> ci.key is Local,
{
}

/// Attempts come to a success exactly where one of them succeeded, and never to the
/// absence of a token unless one of them did.
pub proof fn law_settled_from_attempts(attempts: Seq<Outcome>)
    ensures
        settled(attempts) is Resolved <==> exists|i: int|
            0 <= i < attempts.len() && (#[trigger] attempts[i]) is Resolved,
        attempts.len() > 0 ==> attempts.contains(settled(attempts)),
    decreases attempts.len(),
{
    if attempts.len() > 1 && !(attempts[0] is Resolved) {
        let rest = attempts.drop_first();
        law_settled_from_attempts(rest);
        if exists|i: int| 0 <= i < attempts.len() && (#[trigger] attempts[i]) is Resolved {
            let i = choose|i: int| 0 <= i < attempts.len() && (#[trigger] attempts[i]) is Resolved;
            assert(rest[i - 1] is Resolved);
        }
        if exists|i: int| 0 <= i < rest.len() && (#[trigger] rest[i]) is Resolved {
            let i = choose|i: int| 0 <= i < rest.len() && (#[trigger] rest[i]) is Resolved;
            assert(attempts[i + 1] is Resolved);
        }
        let k = choose|k: int| 0 <= k < rest.len() && rest[k] == settled(rest);
        assert(attempts[k + 1] == settled(attempts));
    } else if attempts.len() > 0 {
        assert(attempts[0] == settled(attempts));
    }
}

/// Whether the issuer at `i` gives a caller that identity for a token with those claims.
pub open spec fn grants(
    inner: Inner,
    token: Seq<char>,
    clocks: Seq<Clock>,
    i: int,
    claims: Map<Seq<char>, JsonTree>,
    identity: Identity,
) -> bool {
    &&& 0 <= i < inner.issuers@.len()
    &&& entitles(inner.issuers@[i], token, claims)
    &&& in_time(claims, clocks[i])
    &&& (Outcome::Resolved { identity }) == mapped(
        inner.issuers@[i],
        JsonTree::Object(claims),
        inner.resolution,
    )
}

/// A caller is given an identity only for a token in the headers that entitles the caller
/// with one of the issuers and has not expired by the clock, and the identity is what that
/// issuer's claims say.
pub proof fn law_resolved_is_entitled(
    inner: Inner,
    headers: Seq<(String, String)>,
    clocks: Seq<Clock>,
    identity: Identity,
)
    requires
        outcome_at(inner, headers, clocks) == (Outcome::Resolved { identity }),
    ensures
        token_in(inner.token_source, headers) matches Some(token) && exists|
            i: int,
            claims: Map<Seq<char>, JsonTree>,
        | #[trigger]
            grants(inner, token, clocks, i, claims, identity),
{
    let token = token_in(inner.token_source, headers)->0;
    let outs = verdicts(inner, token, clocks);
    law_settled_from_attempts(outs);
    let i = choose|i: int| 0 <= i < outs.len() && outs[i] == settled(outs);
    let ci = inner.issuers@[i];
    law_accepted_is_entitled(ci, token, clocks[i], inner.resolution);
    let claims = choose|claims: Map<Seq<char>, JsonTree>| #[trigger]
        entitles(ci, token, claims) && in_time(claims, clocks[i]) && verdict(
            ci,
            token,
            clocks[i],
            inner.resolution,
        ) == mapped(ci, JsonTree::Object(claims), inner.resolution);
    assert(grants(inner, token, clocks, i, claims, identity));
}

/// A request with a token that entitles the caller with one of the issuers, and with which
/// the clock agrees there, is granted an identity.
pub proof fn law_entitled_request_resolves(
    inner: Inner,
    headers: Seq<(String, String)>,
    clocks: Seq<Clock>,
    token: Seq<char>,
    i: int,
    claims: Map<Seq<char>, JsonTree>,
)
    requires
        token_in(inner.token_source, headers) == Some(token),
        0 <= i < inner.issuers@.len(),
        entitles(inner.issuers@[i], token, claims),
        in_time(claims, clocks[i]),
    ensures
        outcome_at(inner, headers, clocks) is Resolved,
{
    let outs = verdicts(inner, token, clocks);
    law_accepted_iff_entitled(inner.issuers@[i], token, claims, clocks[i], inner.resolution);
    assert(outs[i] is Resolved);
    law_settled_from_attempts(outs);
}

/// A token is refused that with none of the issuers both entitles the caller and has the
/// clock agree: one of another issuer or for another audience, without an expiry or a
/// subject, not valid yet or expired, signed or encrypted with another key, or of another
/// purpose.
pub proof fn law_unentitled_is_refused(
    inner: Inner,
    headers: Seq<(String, String)>,
    clocks: Seq<Clock>,
    token: Seq<char>,
)
    requires
        token_in(inner.token_source, headers) == Some(token),
        forall|i: int, claims: Map<Seq<char>, JsonTree>|
            0 <= i < inner.issuers@.len() && #[trigger] entitles(
                inner.issuers@[i],
                token,
                claims,
            ) ==> !in_time(claims, clocks[i]),
    ensures
        outcome_at(inner, headers, clocks) is Invalid,
{
    let outcome = outcome_at(inner, headers, clocks);
    law_token_or_none(inner, headers, clocks);
    if outcome is Resolved {
        law_resolved_is_entitled(inner, headers, clocks, outcome->identity);
        let (i, claims) = choose|i: int, claims: Map<Seq<char>, JsonTree>| #[trigger]
            grants(inner, token, clocks, i, claims, outcome->identity);
        assert(entitles(inner.issuers@[i], token, claims));
    }
}

/// Without a token there is no outcome but its absence, and with one there is another.
pub proof fn law_token_or_none(
    inner: Inner,
    headers: Seq<(String, String)>,
    clocks: Seq<Clock>,
)
    ensures
        outcome_at(inner, headers, clocks) is NoToken <==> token_in(
            inner.token_source,
            headers,
        ) is None,
{
    if let Some(token) = token_in(inner.token_source, headers) {
        let outs = verdicts(inner, token, clocks);
        law_settled_from_attempts(outs);
        if outs.len() > 0 {
            let i = choose|i: int| 0 <= i < outs.len() && outs[i] == settled(outs);
            law_accepted_is_entitled(inner.issuers@[i], token, clocks[i], inner.resolution);
        }
    }
}

/// At the same readings of the clock, two requests with the same token come to the same:
/// nothing else in a request, and nothing that went before, bears on the outcome.
pub proof fn law_token_decides(
    inner: Inner,
    a: Seq<(String, String)>,
    b: Seq<(String, String)>,
    clocks: Seq<Clock>,
)
    requires
        token_in(inner.token_source, a) == token_in(inner.token_source, b),
    ensures
        outcome_at(inner, a, clocks) == outcome_at(inner, b, clocks),
{
}

/// No token is both signed and encrypted.
proof fn lemma_one_purpose(token: Seq<char>)
    ensures
        !("v4.public."@.is_prefix_of(token) && "v4.local."@.is_prefix_of(token)),
{
    reveal_strlit("v4.public.");
    reveal_strlit("v4.local.");
    let public = "v4.public."@;
    let local = "v4.local."@;
    assert(public[3] == 'p' && local[3] == 'l');
    if public.is_prefix_of(token) && local.is_prefix_of(token) {
        assert(token.subrange(0, public.len() as int)[3] == token[3]);
        assert(token.subrange(0, local.len() as int)[3] == token[3]);
    }
}

/// An encrypted token is refused where every key is for signed tokens, and the other
/// way round.
pub proof fn law_other_purpose_is_refused(
    inner: Inner,
    headers: Seq<(String, String)>,
    clocks: Seq<Clock>,
    token: Seq<char>,
)
    requires
        token_in(inner.token_source, headers) == Some(token),
        ({
            ||| "v4.local."@.is_prefix_of(token) && forall|i: int|
                0 <= i < inner.issuers@.len() ==> (#[trigger] inner.issuers@[i]).key is Public
            ||| "v4.public."@.is_prefix_of(token) && forall|i: int|
                0 <= i < inner.issuers@.len() ==> (#[trigger] inner.issuers@[i]).key is Local
        }),
    ensures
        outcome_at(inner, headers, clocks) is Invalid,
{
    lemma_one_purpose(token);
    assert forall|i: int, claims: Map<Seq<char>, JsonTree>|
        0 <= i < inner.issuers@.len() && #[trigger] entitles(
            inner.issuers@[i],
            token,
            claims,
        ) implies !in_time(claims, clocks[i]) by {
        assert(inner.issuers@[i].key is Public || inner.issuers@[i].key is Local);
    }
    law_unentitled_is_refused(inner, headers, clocks, token);
}

/// A resolved identity is labelled as the configuration says: its kind is its trust
/// level, which exists, its issuer is one of those configured, and its subject is not
/// blank.
pub proof fn law_identity_labels(
    config: PasetoConfig,
    inner: Inner,
    headers: Seq<(String, String)>,
    clocks: Seq<Clock>,
    identity: Identity,
)
    requires
        valid_config(config),
        loaded(inner, config),
        outcome_at(inner, headers, clocks) == (Outcome::Resolved { identity }),
    ensures
        identity.kind == config.resolution.trust_level@,
        identity.trust_level == config.resolution.trust_level@,
        valid_trust_level(identity.trust_level),
        identity.auth_provider == Some(config.resolution.auth_provider_label@),
        identity.subject_id matches Some(subject) && !blank(subject),
        exists|i: int|
            0 <= i < config.issuers@.len() && identity.issuer == Some(
                (#[trigger] config.issuers@[i]).issuer@,
            ),
{
    law_resolved_is_entitled(inner, headers, clocks, identity);
    let token = token_in(inner.token_source, headers)->0;
    let (i, claims) = choose|i: int, claims: Map<Seq<char>, JsonTree>| #[trigger]
        grants(inner, token, clocks, i, claims, identity);
    assert(inner.issuers@[i].issuer@ == config.issuers@[i].issuer@);
}

/// A configuration that is at fault is not in order.
pub proof fn law_fault_is_disorder(config: PasetoConfig, error: ConfigError)
    requires
        config_fault(config, error),
    ensures
        !valid_config(config),
{
    let issuers = config.issuers@;
    match error {
        ConfigError::Issuer { index, error } => {
            assert(!sound_at(issuers, index as int));
        },
        ConfigError::DuplicateIssuer { issuer } => {
            let i = choose|i: int| #[trigger]
                first_repeated(issuers, i) && issuer@ == issuers[i].issuer@;
            assert(!sound_at(issuers, i));
        },
        _ => {},
    }
}

/// The place of the fault that an issuer profile is to blame for.
spec fn fault_place(config: PasetoConfig, error: ConfigError) -> int {
    match error {
        ConfigError::Issuer { index, .. } => index as int,
        ConfigError::DuplicateIssuer { issuer } => choose|i: int| #[trigger]
            first_repeated(config.issuers@, i) && issuer@ == config.issuers@[i].issuer@,
        _ => -1,
    }
}

/// A configuration has one fault: whatever is reported reads the same.
pub proof fn law_one_fault(config: PasetoConfig, a: ConfigError, b: ConfigError)
    requires
        config_fault(config, a),
        config_fault(config, b),
    ensures
        a.text() == b.text(),
{
    let issuers = config.issuers@;
    let i = fault_place(config, a);
    let j = fault_place(config, b);
    if a is Issuer || a is DuplicateIssuer {
        assert(!sound_at(issuers, i));
        if b is Issuer || b is DuplicateIssuer {
            assert(!sound_at(issuers, j));
            assert(i == j);
        }
    } else if b is Issuer || b is DuplicateIssuer {
        assert(!sound_at(issuers, j));
    }
}

/// The bytes of a loaded key.
pub open spec fn loaded_key_bytes(key: CompiledKey) -> Seq<u8> {
    match key {
        CompiledKey::Public(key) => public_key_bytes(key),
        CompiledKey::Local(key) => local_key_bytes(key),
    }
}

/// What is loaded is in order: there is an issuer, none is blank or occurs twice, every
/// key has its length, and only an issuer that says so takes any audience.
pub proof fn law_loaded_is_in_order(config: PasetoConfig, inner: Inner)
    requires
        valid_config(config),
        loaded(inner, config),
    ensures
        inner.issuers@.len() > 0,
        forall|i: int|
            0 <= i < inner.issuers@.len() ==> {
                &&& !blank((#[trigger] inner.issuers@[i]).issuer@)
                &&& loaded_key_bytes(inner.issuers@[i].key).len() == V4_KEY_BYTES
                &&& inner.issuers@[i].audiences@.len() == 0
                    ==> config.issuers@[i].allow_any_audience
            },
        forall|i: int, j: int|
            0 <= i < j < inner.issuers@.len() ==> (#[trigger] inner.issuers@[i]).issuer@ != (
            #[trigger] inner.issuers@[j]).issuer@,
{
    let profiles = config.issuers@;
    assert forall|i: int| 0 <= i < inner.issuers@.len() implies {
        &&& !blank((#[trigger] inner.issuers@[i]).issuer@)
        &&& loaded_key_bytes(inner.issuers@[i].key).len() == V4_KEY_BYTES
        &&& inner.issuers@[i].audiences@.len() == 0 ==> config.issuers@[i].allow_any_audience
    } by {
        assert(sound_at(profiles, i));
    }
    assert forall|i: int, j: int| 0 <= i < j < inner.issuers@.len() implies (
    #[trigger] inner.issuers@[i]).issuer@ != (#[trigger] inner.issuers@[j]).issuer@ by {
        assert(sound_at(profiles, j));
        assert(!repeated(profiles, j));
        assert(profiles[i].issuer@ != profiles[j].issuer@);
    }
}

/// An attribute has the text of the last mapping to it that finds one, and there is no
/// attribute but those.
pub proof fn law_last_mapping_wins(
    claims: JsonTree,
    mappings: Seq<(Seq<char>, Seq<char>)>,
    attribute: Seq<char>,
    value: Seq<char>,
)
    ensures
        lookup(attributes_from(claims, mappings), attribute) == Some(value)
            <==> exists|i: int| #[trigger] last_to(claims, mappings, attribute, value, i),
    decreases mappings.len(),
{
    if mappings.len() > 0 {
        let n = mappings.len() - 1;
        let before = mappings.drop_last();
        law_last_mapping_wins(claims, before, attribute, value);
        let found = text_at(claims, mappings[n].0);
        if found is Some && mappings[n].1 == attribute {
            if found == Some(value) {
                assert(last_to(claims, mappings, attribute, value, n));
            }
            assert forall|i: int| #[trigger]
                last_to(claims, mappings, attribute, value, i) implies i == n by {
                if i < n {
                    assert(mappings[n].1 == attribute);
                }
            }
        } else {
            assert forall|i: int| #[trigger]
                last_to(claims, before, attribute, value, i) implies last_to(
                claims,
                mappings,
                attribute,
                value,
                i,
            ) by {
                assert forall|j: int| i < j < mappings.len() && (#[trigger] mappings[j]).1
                    == attribute implies text_at(claims, mappings[j].0) is None by {
                    if j < n {
                        assert(before[j] == mappings[j]);
                    }
                }
            }
            assert forall|i: int| #[trigger]
                last_to(claims, mappings, attribute, value, i) implies last_to(
                claims,
                before,
                attribute,
                value,
                i,
            ) by {
                assert forall|j: int| i < j < before.len() && (#[trigger] before[j]).1
                    == attribute implies text_at(claims, before[j].0) is None by {
                    assert(before[j] == mappings[j]);
                }
                assert(before[i] == mappings[i]);
            }
        }
    }
}

/// Whether the mapping at `i` is the last to an attribute that finds a text, and finds
/// that one.
pub open spec fn last_to(
    claims: JsonTree,
    mappings: Seq<(Seq<char>, Seq<char>)>,
    attribute: Seq<char>,
    value: Seq<char>,
    i: int,
) -> bool {
    &&& 0 <= i < mappings.len()
    &&& mappings[i].1 == attribute
    &&& text_at(claims, mappings[i].0) == Some(value)
    &&& forall|j: int|
        i < j < mappings.len() && (#[trigger] mappings[j]).1 == attribute ==> text_at(
            claims,
            mappings[j].0,
        ) is None
}

/// Lists add up over the paths.
pub proof fn law_lists_add_up(claims: JsonTree, a: Seq<Seq<char>>, b: Seq<Seq<char>>)
    ensures
        lists_at(claims, a + b) == lists_at(claims, a) + lists_at(claims, b),
    decreases b.len(),
{
    if b.len() == 0 {
        assert(a + b == a);
        assert(lists_at(claims, a) + lists_at(claims, b) == lists_at(claims, a));
    } else {
        assert((a + b).drop_last() == a + b.drop_last());
        assert((a + b).last() == b.last());
        law_lists_add_up(claims, a, b.drop_last());
        let tail = listed(at_path(claims, b.last()));
        assert(lists_at(claims, a) + lists_at(claims, b) == lists_at(claims, a) + lists_at(
            claims,
            b.drop_last(),
        ) + tail);
    }
}

/// What an array lists are its texts and nothing else.
pub proof fn law_array_lists_its_texts(items: Seq<JsonTree>, text: Seq<char>)
    ensures
        texts_among(items).contains(text) <==> items.contains(JsonTree::Text(text)),
    decreases items.len(),
{
    if items.len() > 0 {
        let before = items.drop_last();
        let n = items.len() - 1;
        law_array_lists_its_texts(before, text);
        assert(items.contains(JsonTree::Text(text)) <==> before.contains(JsonTree::Text(text))
            || items[n] == JsonTree::Text(text)) by {
            if items.contains(JsonTree::Text(text)) {
                let k = choose|k: int| 0 <= k < items.len() && items[k] == JsonTree::Text(text);
                if k < n {
                    assert(before[k] == items[k]);
                }
            }
            if before.contains(JsonTree::Text(text)) {
                let k = choose|k: int| 0 <= k < before.len() && before[k] == JsonTree::Text(text);
                assert(items[k] == JsonTree::Text(text));
            }
        }
    }
}

/// No word is empty or holds white space.
pub proof fn law_words(s: Seq<char>, k: int)
    requires
        0 <= k < words(s).len(),
    ensures
        words(s)[k].len() > 0,
        forall|i: int| 0 <= i < words(s)[k].len() ==> !is_white_space(#[trigger] words(s)[k][i]),
    decreases s.len(),
{
    if s.len() > 0 {
        if is_white_space(s[0]) {
            law_words(s.drop_first(), k);
        } else {
            let stop = |c: char| is_white_space(c);
            let rest = s.drop_first();
            lemma_span(rest, stop);
            let n = 1 + span(rest, stop);
            if k == 0 {
                assert(words(s)[0] == s.take(n));
                assert forall|i: int| 0 <= i < n implies !is_white_space(#[trigger] s.take(n)[i]) by {
                    if i > 0 {
                        assert(!stop(rest[i - 1]));
                    }
                }
            } else {
                law_words(s.skip(n), k - 1);
                assert(words(s)[k] == words(s.skip(n))[k - 1]);
            }
        }
    }
}

/// The pieces with the separator put back between them.
pub open spec fn joined(parts: Seq<Seq<char>>, sep: char) -> Seq<char>
    decreases parts.len(),
{
    if parts.len() == 0 {
        seq![]
    } else if parts.len() == 1 {
        parts[0]
    } else {
        parts[0] + seq![sep] + joined(parts.drop_first(), sep)
    }
}

/// Splitting loses nothing: with the separators put back, the pieces give the text, and
/// none of them holds the separator.
pub proof fn law_pieces(s: Seq<char>, sep: char)
    ensures
        pieces(s, sep).len() > 0,
        joined(pieces(s, sep), sep) == s,
        forall|k: int|
            0 <= k < pieces(s, sep).len() ==> !(#[trigger] pieces(s, sep)[k]).contains(sep),
    decreases s.len(),
{
    let stop = equals(sep);
    lemma_span(s, stop);
    let n = span(s, stop);
    let parts = pieces(s, sep);
    if n < s.len() {
        let rest = s.skip(n + 1);
        law_pieces(rest, sep);
        assert(parts.drop_first() == pieces(rest, sep));
        assert(parts.len() == 1 + pieces(rest, sep).len());
        assert(s == s.take(n) + seq![sep] + rest) by {
            assert(stop(s[n]));
        }
        assert forall|k: int| 0 <= k < parts.len() implies !(#[trigger] parts[k]).contains(sep) by {
            if k == 0 {
                assert forall|i: int| 0 <= i < n implies #[trigger] s.take(n)[i] != sep by {
                    assert(!stop(s[i]));
                }
            } else {
                assert(parts[k] == pieces(rest, sep)[k - 1]);
            }
        }
    } else {
        assert(parts == seq![s]);
        assert forall|i: int| 0 <= i < s.len() implies #[trigger] s[i] != sep by {
            assert(!stop(s[i]));
        }
    }
}

/// A path without a dot names a member.
pub proof fn law_plain_path(claims: JsonTree, path: Seq<char>)
    requires
        !path.contains('.'),
    ensures
        at_path(claims, path) == member(claims, path),
{
    let stop = equals('.');
    lemma_span(path, stop);
    let n = span(path, stop);
    if n < path.len() {
        assert(stop(path[n]));
        assert(path.contains('.'));
    }
    assert(pieces(path, '.') == seq![path]);
    let parts = pieces(path, '.');
    assert(parts.drop_first().len() == 0);
    if let Some(next) = member(claims, path) {
        assert(walk(next, parts.drop_first()) == Some(next));
    }
}

/// The case of ASCII letters in a header's name does not matter.
pub proof fn law_header_name_case(
    headers: Seq<(String, String)>,
    a: Seq<char>,
    b: Seq<char>,
)
    requires
        same_ignoring_case(a, b),
    ensures
        header_value(headers, a) == header_value(headers, b),
    decreases headers.len(),
{
    if headers.len() > 0 {
        let name = headers[0].0@;
        assert(forall|i: int| 0 <= i < a.len() ==> folded(#[trigger] a[i]) == folded(b[i]));
        assert(forall|i: int| 0 <= i < b.len() ==> folded(a[i]) == folded(#[trigger] b[i]));
        assert(same_ignoring_case(name, a) == same_ignoring_case(name, b));
        law_header_name_case(headers.drop_first(), a, b);
    }
}

/// A token is never empty, and is what follows the prefix, up to the case of ASCII
/// letters, in the header.
pub proof fn law_token_follows_prefix(source: TokenSourceConfig, headers: Seq<(String, String)>)
    ensures
        token_in(source, headers) matches Some(token) ==> {
            &&& token.len() > 0
            &&& header_value(headers, header_name(source)) matches Some(value)
            &&& value == value.take(header_prefix(source).len() as int) + token
            &&& same_ignoring_case(
                value.take(header_prefix(source).len() as int),
                header_prefix(source),
            )
        },
{
    if let Some(value) = header_value(headers, header_name(source)) {
        if stripped(value, header_prefix(source)) is Some {
            let n = header_prefix(source).len() as int;
            assert(value == value.take(n) + value.skip(n));
        }
    }
}

/// A walk along two paths is the walk along the second after the walk along the first.
proof fn lemma_walk_on(tree: JsonTree, a: Seq<Seq<char>>, b: Seq<Seq<char>>)
    ensures
        walk(tree, a + b) == match walk(tree, a) {
            Some(next) => walk(next, b),
            None => None,
        },
    decreases a.len(),
{
    if a.len() == 0 {
        assert(a + b == b);
    } else {
        assert((a + b).drop_first() == a.drop_first() + b);
        assert((a + b)[0] == a[0]);
        if let Some(next) = member(tree, a[0]) {
            lemma_walk_on(next, a.drop_first(), b);
        }
    }
}

/// The pieces of two texts with the separator between them are the pieces of both.
pub proof fn law_pieces_join(a: Seq<char>, b: Seq<char>, sep: char)
    ensures
        pieces(a + seq![sep] + b, sep) == pieces(a, sep) + pieces(b, sep),
    decreases a.len(),
{
    let stop = equals(sep);
    let whole = a + seq![sep] + b;
    lemma_span(a, stop);
    let n = span(a, stop);
    assert forall|i: int| 0 <= i < n implies !stop(#[trigger] whole[i]) by {
        assert(whole[i] == a[i]);
    }
    if n < a.len() {
        assert(whole[n] == a[n]);
    }
    assert(stop(whole[n]));
    lemma_span_unique(whole, stop, n);
    if n < a.len() {
        let rest = a.skip(n + 1);
        law_pieces_join(rest, b, sep);
        assert(whole.skip(n + 1) == rest + seq![sep] + b);
        assert(whole.take(n) == a.take(n));
        assert(pieces(whole, sep) == pieces(a, sep) + pieces(b, sep));
    } else {
        assert(whole.take(n) == a);
        assert(whole.skip(n + 1) == b);
        assert(pieces(whole, sep) == pieces(a, sep) + pieces(b, sep));
    }
}

/// What lies at a path that goes on after a dot is what lies at the second path in what
/// lies at the first.
pub proof fn law_path_goes_on(tree: JsonTree, a: Seq<char>, b: Seq<char>)
    ensures
        at_path(tree, a + seq!['.'] + b) == match at_path(tree, a) {
            Some(next) => at_path(next, b),
            None => None,
        },
{
    law_pieces_join(a, b, '.');
    lemma_walk_on(tree, pieces(a, '.'), pieces(b, '.'));
}

/// Whether what lies from `start` to `end` is the text without the white space at its ends.
pub open spec fn core_of(s: Seq<char>, start: int, end: int) -> bool {
    &&& 0 <= start <= end <= s.len()
    &&& forall|i: int| 0 <= i < start || end <= i < s.len() ==> is_white_space(#[trigger] s[i])
    &&& start < end ==> !is_white_space(s[start]) && !is_white_space(s[end - 1])
}

proof fn lemma_trimmed_end_core(s: Seq<char>, end: int)
    requires
        0 <= end <= s.len(),
        forall|i: int| end <= i < s.len() ==> is_white_space(#[trigger] s[i]),
        end > 0 ==> !is_white_space(s[end - 1]),
    ensures
        trimmed_end(s) == s.take(end),
    decreases s.len(),
{
    if end < s.len() {
        assert(is_white_space(s[s.len() - 1]));
        lemma_trimmed_end_core(s.drop_last(), end);
        assert(s.drop_last().take(end) == s.take(end));
    } else {
        assert(s.take(end) == s);
    }
}

/// What is left of a text is its core.
pub proof fn lemma_trimmed_core(s: Seq<char>, start: int, end: int)
    requires
        core_of(s, start, end),
    ensures
        trimmed(s) == s.subrange(start, end),
{
    if start == end {
        assert(blank(s));
        lemma_trimmed_blank(s);
        assert(trimmed(s) == s.subrange(start, end));
    } else {
        let stop = |c: char| !is_white_space(c);
        lemma_span_unique(s, stop, start);
        let rest = s.skip(start);
        assert(trimmed_start(s) == rest);
        assert forall|i: int| end - start <= i < rest.len() implies is_white_space(
            #[trigger] rest[i],
        ) by {
            assert(rest[i] == s[start + i]);
        }
        lemma_trimmed_end_core(rest, end - start);
        assert(rest.take(end - start) == s.subrange(start, end));
    }
}

/// Every text has a core.
pub proof fn lemma_has_core(s: Seq<char>) -> (r: (int, int))
    ensures
        core_of(s, r.0, r.1),
    decreases s.len(),
{
    if s.len() == 0 {
        (0, 0)
    } else if is_white_space(s.last()) {
        let (start, end) = lemma_has_core(s.drop_last());
        assert forall|i: int| 0 <= i < start || end <= i < s.len() implies is_white_space(
            #[trigger] s[i],
        ) by {
            if i < s.len() - 1 {
                assert(s.drop_last()[i] == s[i]);
            }
        }
        (start, end)
    } else {
        let stop = |c: char| !is_white_space(c);
        lemma_span(s, stop);
        let start = span(s, stop);
        assert forall|i: int| 0 <= i < start implies is_white_space(#[trigger] s[i]) by {
            assert(!stop(s[i]));
        }
        (start, s.len() as int)
    }
}

/// Key material has one fault.
pub proof fn law_one_key_fault(key: KeyMaterialConfig, a: KeyError, b: KeyError)
    requires
        key_fault(key, a),
        key_fault(key, b),
    ensures
        a == b,
        !valid_key(key),
{
    if let KeyError::NotHex { cause: HexError::InvalidHexCharacter { c, index } } = a {
        if let KeyError::NotHex { cause: HexError::InvalidHexCharacter { c: d, index: k } } = b {
            assert(index == k);
            assert(c as u32 == d as u32);
        }
    }
}

proof fn lemma_digit_case(a: char, b: char)
    requires
        folded(a) == folded(b),
    ensures
        is_hex_digit(a) == is_hex_digit(b),
        is_hex_digit(a) ==> hex_value(a) == hex_value(b),
{
    assert(a as u32 == b as u32 || a as u32 + 32 == b as u32 || a as u32 == b as u32 + 32);
}

proof fn lemma_hex_case(a: Seq<char>, b: Seq<char>)
    requires
        same_ignoring_case(a, b),
    ensures
        hex_bytes(a) == hex_bytes(b),
{
    assert forall|i: int| 0 <= i < a.len() implies is_hex_digit(#[trigger] a[i]) == is_hex_digit(
        b[i],
    ) && (is_hex_digit(a[i]) ==> hex_value(a[i]) == hex_value(b[i])) by {
        lemma_digit_case(a[i], b[i]);
    }
    assert(hex_bytes(a) is Some <==> hex_bytes(b) is Some) by {
        if hex_bytes(a) is Some {
            assert forall|i: int| 0 <= i < b.len() implies is_hex_digit(#[trigger] b[i]) by {
                assert(is_hex_digit(a[i]));
            }
        }
    }
    if hex_bytes(a) is Some {
        assert forall|i: int| 0 <= i < a.len() / 2 implies #[trigger] (hex_bytes(a)->0)[i] == (
        hex_bytes(b)->0)[i] by {
            assert(is_hex_digit(a[2 * i]) && is_hex_digit(a[2 * i + 1]));
        }
        assert(hex_bytes(a)->0 =~= hex_bytes(b)->0);
    }
}

/// The core of a text with its letters in another case, and white space around it, lies
/// where that of the text lies.
proof fn lemma_padded_core(
    text: Seq<char>,
    before: Seq<char>,
    recased: Seq<char>,
    after: Seq<char>,
    start: int,
    end: int,
)
    requires
        blank(before),
        blank(after),
        same_ignoring_case(text, recased),
        core_of(text, start, end),
    ensures
        core_of(before + recased + after, before.len() + start, before.len() + end),
{
    let padded = before + recased + after;
    let shift = before.len() as int;
    assert forall|i: int| 0 <= i < text.len() implies is_white_space(#[trigger] text[i])
        == is_white_space(padded[shift + i]) by {
        assert(folded(text[i]) == folded(recased[i]));
        assert(padded[shift + i] == recased[i]);
    }
    assert forall|i: int|
        0 <= i < shift + start || shift + end <= i < padded.len() implies is_white_space(
        #[trigger] padded[i],
    ) by {
        if i < shift {
            assert(padded[i] == before[i]);
        } else if i < shift + text.len() {
            assert(is_white_space(text[i - shift]));
        } else {
            assert(padded[i] == after[i - shift - text.len()]);
        }
    }
    if start < end {
        assert(!is_white_space(text[start]) && !is_white_space(text[end - 1]));
    }
}

/// Neither the case of the letters of a key nor white space around it matters, and the
/// kind of the key does not bear on its bytes.
#[verifier::spinoff_prover]
#[verifier::rlimit(40)]
pub proof fn law_key_spelling(
    a: KeyMaterialConfig,
    b: KeyMaterialConfig,
    before: Seq<char>,
    recased: Seq<char>,
    after: Seq<char>,
)
    requires
        blank(before),
        blank(after),
        same_ignoring_case(key_text(a), recased),
        key_text(b) == before + recased + after,
    ensures
        spelled_bytes(a) == spelled_bytes(b),
        valid_key(a) <==> valid_key(b),
{
    let text = key_text(a);
    let padded = key_text(b);
    let shift = before.len() as int;
    let (start, end) = lemma_has_core(text);
    lemma_trimmed_core(text, start, end);
    lemma_padded_core(text, before, recased, after, start, end);
    lemma_trimmed_core(padded, shift + start, shift + end);
    let left = text.subrange(start, end);
    let right = padded.subrange(shift + start, shift + end);
    assert(same_ignoring_case(left, right)) by {
        assert forall|i: int| 0 <= i < left.len() implies folded(#[trigger] left[i]) == folded(
            right[i],
        ) by {
            assert(folded(text[start + i]) == folded(recased[start + i]));
            assert(right[i] == recased[start + i]);
        }
    }
    lemma_hex_case(left, right);
}

proof fn lemma_order_keeps_sound(a: Seq<IssuerConfig>, b: Seq<IssuerConfig>)
    requires
        a.to_multiset() == b.to_multiset(),
        sound_up_to(a, a.len() as int),
    ensures
        a.len() == b.len(),
        sound_up_to(b, b.len() as int),
{
    a.to_multiset_ensures();
    b.to_multiset_ensures();
    assert forall|i: int, j: int| 0 <= i < j < a.len() implies (#[trigger] a[i]).issuer@ != (
    #[trigger] a[j]).issuer@ by {
        assert(sound_at(a, j));
        assert(!repeated(a, j));
    }
    assert(a.no_duplicates()) by {
        assert forall|i: int, j: int| 0 <= i < a.len() && 0 <= j < a.len() && i != j implies a[i]
            != a[j] by {
            if i < j {
                assert(a[i].issuer@ != a[j].issuer@);
            } else {
                assert(a[j].issuer@ != a[i].issuer@);
            }
        }
    }
    a.lemma_multiset_has_no_duplicates();
    b.lemma_multiset_has_no_duplicates_conv();
    assert forall|i: int| 0 <= i < b.len() implies #[trigger] sound_at(b, i) by {
        assert(b.contains(b[i]));
        assert(b.to_multiset().count(b[i]) > 0);
        assert(a.contains(b[i]));
        let p = choose|p: int| 0 <= p < a.len() && a[p] == b[i];
        assert(sound_at(a, p));
        if repeated(b, i) {
            let j = choose|j: int| 0 <= j < i && (#[trigger] b[j]).issuer@ == b[i].issuer@;
            assert(b.contains(b[j]));
            assert(b.to_multiset().count(b[j]) > 0);
            assert(a.contains(b[j]));
            let q = choose|q: int| 0 <= q < a.len() && a[q] == b[j];
            assert(b[j] != b[i]);
            assert(a[p].issuer@ == a[q].issuer@);
        }
    }
}

/// Neither the order of the issuers nor the source of the token nor the label decides
/// whether a configuration is in order.
pub proof fn law_order_of_issuers(a: PasetoConfig, b: PasetoConfig)
    requires
        a.issuers@.to_multiset() == b.issuers@.to_multiset(),
        a.resolution.trust_level@ == b.resolution.trust_level@,
    ensures
        valid_config(a) <==> valid_config(b),
{
    if valid_config(a) {
        lemma_order_keeps_sound(a.issuers@, b.issuers@);
    }
    if valid_config(b) {
        lemma_order_keeps_sound(b.issuers@, a.issuers@);
    }
}

}
