//! What the results of resolving tokens and requests satisfy, said of the results, the
//! arguments, and the calls that were made on the way.

use pasetors::claims::ClaimsValidationRules;
use pasetors::errors::Error;
use pasetors::token::TrustedToken;
use vstd::prelude::*;
use vstd::utf8::*;

use crate::claim_laws::{identifies, lemma_mapped, maps, says_something};
use crate::claims::mapped;
use crate::config::{IssuerConfig, KeyMaterialConfig, PasetoConfig, ResolutionConfig};
use crate::config_laws::{law_from_config, loads, spells_key};
use crate::error::LoadError;
use crate::header::token_in;
use crate::header_laws::{
    first_named, is_token, law_token_in, lemma_readable, source_name, source_prefix,
};
use crate::identity::{IdentityResolution, PluginIdentity};
use crate::issuer::{CompiledIssuer, CompiledKey};
use crate::json::{at_path, Json, JsonTree};
use crate::laws::{entitles, law_accepted_is_entitled, lemma_audience_checked};
use crate::paseto::{
    by_clock, claim_is, claim_is_text, decides, demands, error_message, in_time, law_fault_free,
    local_key_bytes, local_token, public_key_bytes, public_token, sealed_claims, signed_claims,
    token_claims, Clock,
};
use crate::plugin::{
    attempted, attempts_made, decisive, resolve, settle, settled, Inner, PasetoIdentityPlugin,
};
use crate::verify::{
    allows_audience, answered, asked_for, audience_allowed, check_token, judge,
    law_answer_upholds, rules_for, verdict, verify_against_issuer, TokenCheck,
};

verus! {

broadcast use {vstd::string::group_string_axioms, vstd::seq_lib::group_seq_properties};

// --- one token, one issuer ---------------------------------------------------

/// The rules for an issuer ask for valid times, for the issuer, and for the audience where
/// a single one is listed, and for nothing else.
pub proof fn law_rules_for(ci: CompiledIssuer, r: ClaimsValidationRules)
    requires
        call_ensures(rules_for, (&ci,), r),
    ensures
        demands(r).valid_at,
        demands(r).expiring,
        demands(r).issuer == Some(ci.issuer@),
        demands(r).subject is None,
        demands(r).identifier is None,
        ci.audiences@.len() == 1 ==> demands(r).audience == Some(ci.audiences@[0]@),
        ci.audiences@.len() != 1 ==> demands(r).audience is None,
{
}

/// Whether a token can be taken apart, for the purpose of the issuer's key.
pub open spec fn taken_apart(ci: CompiledIssuer, token: Seq<char>) -> bool {
    match ci.key {
        CompiledKey::Public(_) => public_token(token) is Ok,
        CompiledKey::Local(_) => local_token(token) is Ok,
    }
}

/// Whether a token starts as those of the purpose of the issuer's key do.
pub open spec fn fits_purpose(ci: CompiledIssuer, token: Seq<char>) -> bool {
    match ci.key {
        CompiledKey::Public(_) => "v4.public."@.is_prefix_of(token),
        CompiledKey::Local(_) => "v4.local."@.is_prefix_of(token),
    }
}

/// Whether a check is what an answer of `pasetors` says: the claims of the token that it
/// accepted, or the message of the error with which it refused it.
pub open spec fn reports(check: TokenCheck, trusted: Result<TrustedToken, Error>) -> bool {
    match trusted {
        Ok(token) => check matches TokenCheck::Verified { claims } && (token_claims(
            token,
        ) matches Some(found) && claims@ == JsonTree::Object(found)),
        Err(cause) => check matches TokenCheck::Rejected { error } && error@ == error_message(
            cause,
        ),
    }
}

/// A check of a token that can be taken apart reports what `pasetors` answered when it was
/// called for this token, with the key and the rules of this issuer: the token counts as
/// verified exactly where that call accepted it. A token that cannot be taken apart, and
/// any of another purpose, is not one for the issuer.
pub proof fn law_check_token(ci: CompiledIssuer, token: &str, r: TokenCheck)
    requires
        call_ensures(check_token, (&ci, token), r),
    ensures
        taken_apart(ci, token@) && fits_purpose(ci, token@) ==> exists|
            trusted: Result<TrustedToken, Error>,
        | #[trigger]
            answered(ci, token@, trusted) && reports(r, trusted),
        !taken_apart(ci, token@) || !fits_purpose(ci, token@) ==> match ci.key {
            CompiledKey::Public(_) => r matches TokenCheck::NotPublic { error } && (
            fits_purpose(ci, token@) ==> error@ == error_message(public_token(token@)->Err_0)) && (
            !fits_purpose(ci, token@) ==> error@ == "TokenFormat"@),
            CompiledKey::Local(_) => r matches TokenCheck::NotLocal { error } && (
            fits_purpose(ci, token@) ==> error@ == error_message(local_token(token@)->Err_0)) && (
            !fits_purpose(ci, token@) ==> error@ == "TokenFormat"@),
        },
{
    match r {
        TokenCheck::Rejected { error } => {
            let cause = choose|cause: Error| #[trigger]
                answered(ci, token@, Err(cause)) && error@ == error_message(cause);
            assert(answered(ci, token@, Err(cause)) && reports(r, Err(cause)));
        },
        TokenCheck::Verified { claims } => {
            let trusted = choose|trusted: TrustedToken| #[trigger]
                answered(ci, token@, Ok(trusted)) && (token_claims(trusted) matches Some(found)
                    && claims@ == JsonTree::Object(found));
            assert(answered(ci, token@, Ok(trusted)) && reports(r, Ok(trusted)));
        },
        _ => {},
    }
}

/// A token is refused with a message of the clock only where `pasetors` answered so, when
/// it was called for this token with the key and the rules of this issuer.
pub proof fn law_clock_is_that_of_the_call(
    ci: CompiledIssuer,
    token: &str,
    r: TokenCheck,
    error: String,
)
    requires
        call_ensures(check_token, (&ci, token), r),
        r == (TokenCheck::Rejected { error }),
    ensures
        exists|cause: Error| #[trigger]
            answered(ci, token@, Err(cause)) && error@ == error_message(cause),
{
}

/// Whether a listed audience is named, where more than one is listed. A single one was
/// asked for before.
pub open spec fn audience_listed(ci: CompiledIssuer, claims: JsonTree) -> bool {
    ci.audiences@.len() <= 1 || exists|k: int|
        0 <= k < ci.audiences@.len() && (claims matches JsonTree::Object(members)
            && members.dom().contains("aud"@) && members["aud"@] == JsonTree::Text(
            (#[trigger] ci.audiences@[k])@,
        ))
}

proof fn lemma_audience_listed(ci: CompiledIssuer, claims: JsonTree)
    ensures
        audience_allowed(ci, claims) <==> audience_listed(ci, claims),
{
    let listed = ci.audiences.deep_view();
    if ci.audiences@.len() > 1 {
        if audience_allowed(ci, claims) {
            let audience = claims->Object_0["aud"@]->Text_0;
            let k = choose|k: int| 0 <= k < listed.len() && listed[k] == audience;
            assert(listed[k] == ci.audiences@[k]@);
        }
        if audience_listed(ci, claims) {
            let k = choose|k: int|
                0 <= k < ci.audiences@.len() && (claims matches JsonTree::Object(members)
                    && members.dom().contains("aud"@) && members["aud"@] == JsonTree::Text(
                    (#[trigger] ci.audiences@[k])@,
                ));
            assert(listed[k] == ci.audiences@[k]@);
            assert(listed.contains(ci.audiences@[k]@));
        }
    }
}

/// An audience is allowed where it is among those listed, in whatever place.
pub proof fn law_allows_audience(ci: CompiledIssuer, claims: Json, r: bool)
    requires
        call_ensures(allows_audience, (&ci, &claims), r),
    ensures
        r <==> audience_listed(ci, claims@),
{
    lemma_audience_listed(ci, claims@);
}

/// Whether a resolution is what verified claims come to: they are refused where the
/// audience is not listed, and else are what they map to.
pub open spec fn settles_claims(
    ci: CompiledIssuer,
    claims: JsonTree,
    resolution: ResolutionConfig,
    r: IdentityResolution,
) -> bool {
    if audience_listed(ci, claims) {
        maps(ci, claims, resolution, r)
    } else {
        r matches IdentityResolution::Invalid { reason } && reason@
            == "audience not allowed for issuer '"@ + ci.issuer@ + "'"@
    }
}

/// Whether a resolution is a refusal with that message, after those words about the issuer.
pub open spec fn refuses(
    ci: CompiledIssuer,
    words: Seq<char>,
    error: Seq<char>,
    r: IdentityResolution,
) -> bool {
    r matches IdentityResolution::Invalid { reason } && reason@ == words + ci.issuer@ + "': "@
        + error
}

/// What each check comes to.
pub proof fn law_judge(
    ci: CompiledIssuer,
    check: TokenCheck,
    resolution: ResolutionConfig,
    r: IdentityResolution,
)
    requires
        call_ensures(judge, (&ci, &check, &resolution), r),
    ensures
        match check {
            TokenCheck::NotPublic { error } => refuses(
                ci,
                "not a v4.public token for issuer '"@,
                error@,
                r,
            ),
            TokenCheck::NotLocal { error } => refuses(
                ci,
                "not a v4.local token for issuer '"@,
                error@,
                r,
            ),
            TokenCheck::Rejected { error } => refuses(
                ci,
                "token verification failed for issuer '"@,
                error@,
                r,
            ),
            TokenCheck::NoClaims => r matches IdentityResolution::Invalid { reason } && reason@
                == "verified token carried no claims"@,
            TokenCheck::Unreadable => r matches IdentityResolution::Invalid { reason } && reason@
                == "could not read verified token claims"@,
            TokenCheck::Verified { claims } => settles_claims(ci, claims@, resolution, r),
        },
{
    if let TokenCheck::Verified { claims } = check {
        lemma_audience_listed(ci, claims@);
        if audience_allowed(ci, claims@) {
            lemma_mapped(ci, claims@, resolution, r);
        }
    }
}

/// Whether a resolution is what an answer of `pasetors` comes to.
pub open spec fn settles_answer(
    ci: CompiledIssuer,
    resolution: ResolutionConfig,
    trusted: Result<TrustedToken, Error>,
    r: IdentityResolution,
) -> bool {
    match trusted {
        Ok(token) => token_claims(token) matches Some(found) && settles_claims(
            ci,
            JsonTree::Object(found),
            resolution,
            r,
        ),
        Err(cause) => refuses(
            ci,
            "token verification failed for issuer '"@,
            error_message(cause),
            r,
        ),
    }
}

/// With one issuer, a token that can be taken apart comes to what `pasetors` answered when
/// it was called for this token with the key and the rules of this issuer. In particular a
/// token that this call accepted is refused only where its audience is not listed or its
/// subject is missing.
pub proof fn law_verify_against_issuer(
    ci: CompiledIssuer,
    token: &str,
    resolution: ResolutionConfig,
    r: IdentityResolution,
)
    requires
        call_ensures(verify_against_issuer, (&ci, token, &resolution), r),
    ensures
        taken_apart(ci, token@) && fits_purpose(ci, token@) ==> exists|
            trusted: Result<TrustedToken, Error>,
        | #[trigger]
            answered(ci, token@, trusted) && settles_answer(ci, resolution, trusted, r),
        !fits_purpose(ci, token@) ==> match ci.key {
            CompiledKey::Public(_) => refuses(
                ci,
                "not a v4.public token for issuer '"@,
                "TokenFormat"@,
                r,
            ),
            CompiledKey::Local(_) => refuses(
                ci,
                "not a v4.local token for issuer '"@,
                "TokenFormat"@,
                r,
            ),
        },
        !taken_apart(ci, token@) && fits_purpose(ci, token@) ==> match ci.key {
            CompiledKey::Public(_) => refuses(
                ci,
                "not a v4.public token for issuer '"@,
                error_message(public_token(token@)->Err_0),
                r,
            ),
            CompiledKey::Local(_) => refuses(
                ci,
                "not a v4.local token for issuer '"@,
                error_message(local_token(token@)->Err_0),
                r,
            ),
        },
{
    let check = choose|check: TokenCheck| #[trigger]
        call_ensures(check_token, (&ci, token), check) && call_ensures(
            judge,
            (&ci, &check, &resolution),
            r,
        );
    law_check_token(ci, token, check);
    law_judge(ci, check, resolution, r);
    if taken_apart(ci, token@) && fits_purpose(ci, token@) {
        let trusted = choose|trusted: Result<TrustedToken, Error>| #[trigger]
            answered(ci, token@, trusted) && reports(check, trusted);
        assert(answered(ci, token@, trusted) && settles_answer(ci, resolution, trusted, r));
    }
}

// --- requests ----------------------------------------------------------------

/// An attempt with an issuer is a call that was made for that issuer and that token.
pub proof fn law_attempt_is_a_call(
    ci: CompiledIssuer,
    token: Seq<char>,
    resolution: ResolutionConfig,
    r: IdentityResolution,
)
    requires
        attempted(ci, token, resolution, r),
    ensures
        exists|text: &str|
            text@ == token && #[trigger] call_ensures(
                verify_against_issuer,
                (&ci, text, &resolution),
                r,
            ),
{
}

/// Several attempts come to the first that succeeded, and where none did to the last;
/// without any, no issuer accepted the token.
pub proof fn law_settle(attempts: Vec<IdentityResolution>, r: IdentityResolution)
    requires
        call_ensures(settle, (attempts,), r),
    ensures
        attempts@.len() == 0 ==> (r matches IdentityResolution::Invalid { reason } && reason@
            == "no configured issuer accepted the token"@),
        forall|i: int|
            0 <= i < attempts@.len() && (#[trigger] attempts@[i]) is Resolved && (forall|j: int|
                0 <= j < i ==> !((#[trigger] attempts@[j]) is Resolved)) ==> r == attempts@[i],
        attempts@.len() > 0 && (forall|i: int|
            0 <= i < attempts@.len() ==> !((#[trigger] attempts@[i]) is Resolved)) ==> r
            == attempts@.last(),
{
    if attempts@.len() > 0 {
        let k = choose|k: int| #[trigger] decisive(attempts@, k) && r == attempts@[k];
        assert forall|i: int|
            0 <= i < attempts@.len() && (#[trigger] attempts@[i]) is Resolved && (forall|j: int|
                0 <= j < i ==> !((#[trigger] attempts@[j]) is Resolved)) implies r
            == attempts@[i] by {
            if k < i {
                assert(attempts@[k] is Resolved);
            }
        }
    }
}

/// Whether an issuer was tried with a token and did not accept it.
pub open spec fn tried_in_vain(
    ci: CompiledIssuer,
    token: Seq<char>,
    resolution: ResolutionConfig,
) -> bool {
    exists|r: IdentityResolution| #[trigger]
        attempted(ci, token, resolution, r) && !(r is Resolved)
}

/// A request without a token comes to its absence. One with a token comes to what the first
/// issuer that accepts it gave, all before it having been tried in vain; and where there is
/// none, every issuer was tried in vain, and it comes to what the last one gave.
pub proof fn law_resolve(
    inner: Inner,
    headers: &[(String, String)],
    r: IdentityResolution,
)
    requires
        call_ensures(resolve, (&inner, headers), r),
    ensures
        r is NoToken <==> forall|token: Seq<char>| !#[trigger]
            is_token(inner.token_source, headers@, token),
        forall|token: Seq<char>| #[trigger]
            is_token(inner.token_source, headers@, token) && r is Resolved ==> exists|i: int|
                {
                    &&& 0 <= i < inner.issuers@.len()
                    &&& attempted(#[trigger] inner.issuers@[i], token, inner.resolution, r)
                    &&& forall|j: int|
                        0 <= j < i ==> tried_in_vain(
                            #[trigger] inner.issuers@[j],
                            token,
                            inner.resolution,
                        )
                },
        forall|token: Seq<char>| #[trigger]
            is_token(inner.token_source, headers@, token) && !(r is Resolved) ==> {
                &&& forall|j: int|
                    0 <= j < inner.issuers@.len() ==> tried_in_vain(
                        #[trigger] inner.issuers@[j],
                        token,
                        inner.resolution,
                    )
                &&& inner.issuers@.len() > 0 ==> attempted(
                    inner.issuers@.last(),
                    token,
                    inner.resolution,
                    r,
                )
                &&& inner.issuers@.len() == 0 ==> (r matches IdentityResolution::Invalid { reason }
                    && reason@ == "no configured issuer accepted the token"@)
            },
{
    let found = token_in(inner.token_source, headers@);
    assert forall|token: Seq<char>| #[trigger]
        is_token(inner.token_source, headers@, token) <==> found == Some(token) by {
        law_token_in(inner.token_source, headers@, token);
    }
    if let Some(token) = found {
        assert(is_token(inner.token_source, headers@, token));
        let attempts = choose|attempts: Seq<IdentityResolution>| #[trigger]
            attempts_made(inner, token, attempts) && (if attempts.len() == 0 {
                r@ == settled(Seq::empty())
            } else {
                exists|i: int| #[trigger] decisive(attempts, i) && r == attempts[i]
            });
        if attempts.len() > 0 {
            let k = choose|k: int| #[trigger] decisive(attempts, k) && r == attempts[k];
            assert(attempted(inner.issuers@[k], token, inner.resolution, attempts[k]));
            assert forall|j: int| 0 <= j < k implies tried_in_vain(
                #[trigger] inner.issuers@[j],
                token,
                inner.resolution,
            ) by {
                assert(attempted(inner.issuers@[j], token, inner.resolution, attempts[j]));
            }
            lemma_attempt_settles(inner.issuers@[k], token, inner.resolution, r);
            if !(r is Resolved) {
                assert(k == attempts.len() - 1);
                assert(attempts.len() == inner.issuers@.len());
                assert(tried_in_vain(inner.issuers@[k], token, inner.resolution));
            }
        }
    } else {
        assert forall|token: Seq<char>| !#[trigger]
            is_token(inner.token_source, headers@, token) by {}
    }
}

/// An attempt accepts a token or refuses it.
proof fn lemma_attempt_settles(
    ci: CompiledIssuer,
    token: Seq<char>,
    resolution: ResolutionConfig,
    r: IdentityResolution,
)
    requires
        attempted(ci, token, resolution, r),
    ensures
        r is Resolved || r is Invalid,
{
    let text = choose|text: &str|
        text@ == token && #[trigger] call_ensures(
            verify_against_issuer,
            (&ci, text, &resolution),
            r,
        );
    assert(r@ is Resolved || r@ is Invalid);
}

/// A request is resolved where some issuer, in whatever place, accepts its token whenever
/// it is tried.
pub proof fn law_every_issuer_counts(
    plugin: PasetoIdentityPlugin,
    headers: &[(String, String)],
    r: IdentityResolution,
    token: Seq<char>,
    i: int,
)
    requires
        call_ensures(PasetoIdentityPlugin::resolve_identity, (&plugin, headers), r),
        is_token(plugin.inner.token_source, headers@, token),
        0 <= i < plugin.inner.issuers@.len(),
        forall|attempt: IdentityResolution| #[trigger]
            attempted(plugin.inner.issuers@[i], token, plugin.inner.resolution, attempt)
                ==> attempt is Resolved,
    ensures
        r is Resolved,
{
    law_resolve(plugin.inner, headers, r);
    if !(r is Resolved) {
        assert(tried_in_vain(plugin.inner.issuers@[i], token, plugin.inner.resolution));
    }
}

/// A request is refused only by the clock where its token entitles the caller with some
/// issuer, in whatever place: that issuer was then tried, and `pasetors` answered it with a
/// message of the clock.
pub proof fn law_entitled_refused_by_clock(
    plugin: PasetoIdentityPlugin,
    headers: &[(String, String)],
    r: IdentityResolution,
    token: Seq<char>,
    i: int,
    claims: Map<Seq<char>, JsonTree>,
)
    requires
        call_ensures(PasetoIdentityPlugin::resolve_identity, (&plugin, headers), r),
        is_token(plugin.inner.token_source, headers@, token),
        0 <= i < plugin.inner.issuers@.len(),
        entitles(plugin.inner.issuers@[i], token, claims),
        !(r is Resolved),
    ensures
        exists|cause: Error| #[trigger]
            answered(plugin.inner.issuers@[i], token, Err(cause)) && by_clock(
                error_message(cause),
            ),
{
    let ci = plugin.inner.issuers@[i];
    let resolution = plugin.inner.resolution;
    law_resolve(plugin.inner, headers, r);
    assert(tried_in_vain(ci, token, resolution));
    let attempt = choose|attempt: IdentityResolution| #[trigger]
        attempted(ci, token, resolution, attempt) && !(attempt is Resolved);
    lemma_entitled_attempt(ci, token, resolution, attempt, claims);
}

/// A token that entitles the caller is refused by an issuer only where `pasetors` answered
/// it with a message of the clock.
proof fn lemma_entitled_attempt(
    ci: CompiledIssuer,
    token: Seq<char>,
    resolution: ResolutionConfig,
    attempt: IdentityResolution,
    claims: Map<Seq<char>, JsonTree>,
)
    requires
        attempted(ci, token, resolution, attempt),
        entitles(ci, token, claims),
        !(attempt is Resolved),
    ensures
        exists|cause: Error| #[trigger]
            answered(ci, token, Err(cause)) && by_clock(error_message(cause)),
{
    let text = choose|text: &str|
        text@ == token && #[trigger] call_ensures(
            verify_against_issuer,
            (&ci, text, &resolution),
            attempt,
        );
    law_verify_against_issuer(ci, text, resolution, attempt);
    assert(taken_apart(ci, token) && fits_purpose(ci, token));
    let trusted = choose|trusted: Result<TrustedToken, Error>| #[trigger]
        answered(ci, token, trusted) && settles_answer(ci, resolution, trusted, attempt);
    law_answer_upholds(ci, token, trusted);
    let asked = asked_for(ci);
    let clock = choose|clock: Clock| #[trigger]
        decides(claims, asked, clock, trusted);
    law_fault_free(claims, asked, clock);
    lemma_audience_checked(ci, claims);
    lemma_audience_listed(ci, JsonTree::Object(claims));
    match trusted {
        Ok(accepted) => {
            let subject = at_path(
                JsonTree::Object(claims),
                ci.claim_mappings.subject_claim@,
            )->0->Text_0;
            assert(says_something(subject));
        },
        Err(cause) => {
            assert(by_clock(error_message(cause)));
        },
    }
}

/// A request can be resolved exactly where the first header of the source's name, if there
/// is one, is shorter in bytes than the prefix or has no character across the end of as
/// many bytes. Where it can, the resolution is that of the request; else there is none.
pub proof fn law_try_resolve_identity(
    plugin: PasetoIdentityPlugin,
    headers: &[(String, String)],
    can: bool,
    r: Option<IdentityResolution>,
)
    requires
        call_ensures(PasetoIdentityPlugin::can_resolve, (&plugin, headers), can),
        call_ensures(PasetoIdentityPlugin::try_resolve_identity, (&plugin, headers), r),
    ensures
        can <==> forall|i: int| #[trigger]
            first_named(headers@, source_name(plugin.inner.token_source), i) ==> {
                let bytes = encode_utf8(headers@[i].1@);
                let mid = encode_utf8(source_prefix(plugin.inner.token_source)).len();
                mid <= bytes.len() ==> is_char_boundary(bytes, mid as int)
            },
        r is Some <==> can,
        r matches Some(resolution) ==> call_ensures(
            resolve,
            (&plugin.inner, headers),
            resolution,
        ),
{
    lemma_readable(plugin.inner.token_source, headers@);
}

/// What `resolve_identity` gives is what resolving the request gives.
pub proof fn law_resolve_identity(
    plugin: PasetoIdentityPlugin,
    headers: &[(String, String)],
    r: IdentityResolution,
)
    requires
        call_ensures(PasetoIdentityPlugin::resolve_identity, (&plugin, headers), r),
    ensures
        call_ensures(resolve, (&plugin.inner, headers), r),
{
}

// --- loaded configurations ---------------------------------------------------

/// Whether a token is authentic for a profile: it is one of the purpose of the profile's
/// key, and under the bytes that the profile spells it carries those claims.
pub open spec fn authentic(
    profile: IssuerConfig,
    token: Seq<char>,
    claims: Map<Seq<char>, JsonTree>,
) -> bool {
    exists|bytes: Seq<u8>| #[trigger]
        spells_key(profile.key, bytes) && match profile.key {
            KeyMaterialConfig::PublicHex { .. } => "v4.public."@.is_prefix_of(token) && (
            public_token(token) matches Ok(parts) && signed_claims(bytes, parts) == Ok::<_, Error>(
                claims,
            )),
            KeyMaterialConfig::LocalHex { .. } => "v4.local."@.is_prefix_of(token) && (local_token(
                token,
            ) matches Ok(parts) && sealed_claims(bytes, parts) == Ok::<_, Error>(claims)),
        }
}

/// Whether a token with those claims is one that a profile accepts: authentic, of the
/// profile's issuer, for one of its audiences where any is listed, and with all its times.
pub open spec fn accepts(
    profile: IssuerConfig,
    token: Seq<char>,
    claims: Map<Seq<char>, JsonTree>,
) -> bool {
    &&& authentic(profile, token, claims)
    &&& claim_is(claims, "iss"@, profile.issuer@)
    &&& profile.audiences@.len() > 0 ==> exists|k: int|
        0 <= k < profile.audiences@.len() && claim_is(
            claims,
            "aud"@,
            (#[trigger] profile.audiences@[k])@,
        )
    &&& claim_is_text(claims, "exp"@)
    &&& claim_is_text(claims, "nbf"@)
    &&& claim_is_text(claims, "iat"@)
}

/// An identity that a loaded configuration gives is the one that the claims of an accepted
/// token give under the claim mappings written in the profile of one of its issuers,
/// whatever the kind of that issuer's key: subject, roles, groups, scopes, attributes and
/// labels.
pub proof fn law_identity_as_configured(
    config: PasetoConfig,
    plugin: PasetoIdentityPlugin,
    headers: &[(String, String)],
    identity: PluginIdentity,
)
    requires
        call_ensures(
            PasetoIdentityPlugin::from_config,
            (config,),
            Ok::<PasetoIdentityPlugin, LoadError>(plugin),
        ),
        call_ensures(
            PasetoIdentityPlugin::resolve_identity,
            (&plugin, headers),
            (IdentityResolution::Resolved { identity }),
        ),
    ensures
        exists|i: int, token: Seq<char>, claims: Map<Seq<char>, JsonTree>|
            {
                &&& 0 <= i < config.issuers@.len()
                &&& is_token(config.token_source, headers@, token)
                &&& #[trigger] accepts(config.issuers@[i], token, claims)
                &&& identifies(
                    identity,
                    JsonTree::Object(claims),
                    config.issuers@[i].claim_mappings,
                    config.issuers@[i].issuer@,
                    config.resolution,
                )
            },
{
    let r = IdentityResolution::Resolved { identity };
    law_from_config(config, Ok::<PasetoIdentityPlugin, LoadError>(plugin));
    law_resolve(plugin.inner, headers, r);
    let token = choose|token: Seq<char>| #[trigger]
        is_token(plugin.inner.token_source, headers@, token);
    let i = choose|i: int|
        {
            &&& 0 <= i < plugin.inner.issuers@.len()
            &&& attempted(#[trigger] plugin.inner.issuers@[i], token, plugin.inner.resolution, r)
            &&& forall|j: int|
                0 <= j < i ==> tried_in_vain(
                    #[trigger] plugin.inner.issuers@[j],
                    token,
                    plugin.inner.resolution,
                )
        };
    let ci = plugin.inner.issuers@[i];
    let profile = config.issuers@[i];
    assert(loads(ci, profile));
    let text = choose|text: &str|
        text@ == token && #[trigger] call_ensures(
            verify_against_issuer,
            (&ci, text, &plugin.inner.resolution),
            r,
        );
    let clock = choose|clock: Clock|
        r@ == #[trigger] verdict(ci, text@, clock, plugin.inner.resolution);
    law_accepted_is_entitled(ci, token, clock, plugin.inner.resolution);
    let claims = choose|claims: Map<Seq<char>, JsonTree>| #[trigger]
        entitles(ci, token, claims) && in_time(claims, clock) && verdict(
            ci,
            token,
            clock,
            plugin.inner.resolution,
        ) == mapped(ci, JsonTree::Object(claims), plugin.inner.resolution);
    lemma_mapped(ci, JsonTree::Object(claims), plugin.inner.resolution, r);
    lemma_accepts(ci, profile, token, claims);
    assert(accepts(config.issuers@[i], token, claims));
}

proof fn lemma_accepts(
    ci: CompiledIssuer,
    profile: IssuerConfig,
    token: Seq<char>,
    claims: Map<Seq<char>, JsonTree>,
)
    requires
        loads(ci, profile),
        entitles(ci, token, claims),
    ensures
        accepts(profile, token, claims),
{
    let bytes = match ci.key {
        CompiledKey::Public(key) => public_key_bytes(key),
        CompiledKey::Local(key) => local_key_bytes(key),
    };
    assert(spells_key(profile.key, bytes));
    assert(authentic(profile, token, claims));
    assert(ci.audiences.deep_view().len() == profile.audiences.deep_view().len());
    if profile.audiences@.len() > 0 {
        let k = choose|k: int|
            0 <= k < ci.audiences@.len() && claim_is(
                claims,
                "aud"@,
                (#[trigger] ci.audiences@[k])@,
            );
        assert(ci.audiences.deep_view()[k] == ci.audiences@[k]@);
        assert(profile.audiences.deep_view()[k] == profile.audiences@[k]@);
    }
}

// --- labels ------------------------------------------------------------------

/// The word under which an outcome is counted.
pub proof fn law_label(resolution: IdentityResolution, r: &'static str)
    requires
        call_ensures(IdentityResolution::label, (&resolution,), r),
    ensures
        resolution is Resolved ==> r@ == "resolved"@,
        resolution is NoToken ==> r@ == "none"@,
        resolution is Invalid ==> r@ == "invalid"@,
{
}

}
