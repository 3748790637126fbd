//! One token against one issuer.

use pasetors::claims::ClaimsValidationRules;
use pasetors::errors::Error;
use pasetors::keys::{AsymmetricPublicKey, SymmetricKey};
use pasetors::token::{Local, Public, TrustedToken, UntrustedToken};
use pasetors::version4::V4;
use vstd::prelude::*;

use crate::claims::{map_claims, mapped};
use crate::config::ResolutionConfig;
use crate::identity::{IdentityResolution, Outcome};
use crate::issuer::{CompiledIssuer, CompiledKey};
use crate::json::{member, parse_json, Json, JsonTree};
use crate::paseto::{
    agreeing_clock, ask_audience, ask_issuer, claims_text, decides, decrypt_local, demands,
    error_message, error_text, fault, local_key_bytes, local_parts, local_token, new_rules,
    payload_claims, public_key_bytes, public_parts, public_token, read_local_token,
    read_public_token, sealed_claims, shallow, signed_claims, token_claims, upholds,
    verify_public, Clock, Demands,
};
use crate::text::{join3, same};

verus! {

broadcast use {vstd::string::group_string_axioms, vstd::seq_lib::group_seq_properties};

/// What came of checking a token with the key of an issuer.
#[derive(Debug)]
pub enum TokenCheck {
    /// The text is not that of a signed token.
    NotPublic { error: String },
    /// The text is not that of an encrypted token.
    NotLocal { error: String },
    /// The token did not verify, or its claims were refused.
    Rejected { error: String },
    /// The token verified, but carries no claims.
    NoClaims,
    /// The token verified, but its claims could not be read.
    Unreadable,
    /// The token verified, and carries these claims.
    Verified { claims: Json },
}

/// What a check of a token found.
#[verifier::ext_equal]
pub ghost enum Checked {
    NotPublic { error: Seq<char> },
    NotLocal { error: Seq<char> },
    Rejected { error: Seq<char> },
    NoClaims,
    Unreadable,
    Verified { claims: JsonTree },
}

impl View for TokenCheck {
    type V = Checked;

    open spec fn view(&self) -> Checked {
        match *self {
            TokenCheck::NotPublic { error } => Checked::NotPublic { error: error@ },
            TokenCheck::NotLocal { error } => Checked::NotLocal { error: error@ },
            TokenCheck::Rejected { error } => Checked::Rejected { error: error@ },
            TokenCheck::NoClaims => Checked::NoClaims,
            TokenCheck::Unreadable => Checked::Unreadable,
            TokenCheck::Verified { claims } => Checked::Verified { claims: claims@ },
        }
    }
}

/// What the claims of a token are held to for an issuer. A single audience is asked for
/// at once; of several, which one is named is looked at afterwards.
pub open spec fn asked_for(ci: CompiledIssuer) -> Demands {
    Demands {
        valid_at: true,
        expiring: true,
        issuer: Some(ci.issuer@),
        subject: None,
        audience: if ci.audiences@.len() == 1 {
            Some(ci.audiences@[0]@)
        } else {
            None
        },
        identifier: None,
    }
}

/// What a check finds, given what was found under the key and what the clock says.
pub open spec fn found_at(
    found: Result<Map<Seq<char>, JsonTree>, Error>,
    asked: Demands,
    clock: Clock,
) -> Checked {
    match found {
        Err(cause) => Checked::Rejected { error: error_message(cause) },
        Ok(claims) => match fault(claims, asked, clock) {
            Some(error) => Checked::Rejected { error },
            None => Checked::Verified { claims: JsonTree::Object(claims) },
        },
    }
}

/// What the check of a token with the key of an issuer finds, given what the clock says.
pub open spec fn check_at(ci: CompiledIssuer, token: Seq<char>, clock: Clock) -> Checked {
    match ci.key {
        CompiledKey::Public(key) => if !"v4.public."@.is_prefix_of(token) {
            Checked::NotPublic { error: "TokenFormat"@ }
        } else {
            match public_token(token) {
                Err(cause) => Checked::NotPublic { error: error_message(cause) },
                Ok(parts) => found_at(
                    signed_claims(public_key_bytes(key), parts),
                    asked_for(ci),
                    clock,
                ),
            }
        },
        CompiledKey::Local(key) => if !"v4.local."@.is_prefix_of(token) {
            Checked::NotLocal { error: "TokenFormat"@ }
        } else {
            match local_token(token) {
                Err(cause) => Checked::NotLocal { error: error_message(cause) },
                Ok(parts) => found_at(
                    sealed_claims(local_key_bytes(key), parts),
                    asked_for(ci),
                    clock,
                ),
            }
        },
    }
}

/// Whether the audience that claims name is allowed. Where one audience or none is
/// listed, there is nothing left to look at.
pub open spec fn audience_allowed(ci: CompiledIssuer, claims: JsonTree) -> bool {
    ci.audiences@.len() > 1 ==> (member(claims, "aud"@) matches Some(JsonTree::Text(audience))
        && ci.audiences.deep_view().contains(audience))
}

/// What a check comes to.
pub open spec fn judged(
    ci: CompiledIssuer,
    check: Checked,
    resolution: ResolutionConfig,
) -> Outcome {
    match check {
        Checked::NotPublic { error } => Outcome::Invalid {
            reason: "not a v4.public token for issuer '"@ + ci.issuer@ + "': "@ + error,
        },
        Checked::NotLocal { error } => Outcome::Invalid {
            reason: "not a v4.local token for issuer '"@ + ci.issuer@ + "': "@ + error,
        },
        Checked::Rejected { error } => Outcome::Invalid {
            reason: "token verification failed for issuer '"@ + ci.issuer@ + "': "@ + error,
        },
        Checked::NoClaims => Outcome::Invalid { reason: "verified token carried no claims"@ },
        Checked::Unreadable => Outcome::Invalid {
            reason: "could not read verified token claims"@,
        },
        Checked::Verified { claims } => if audience_allowed(ci, claims) {
            mapped(ci, claims, resolution)
        } else {
            Outcome::Invalid { reason: "audience not allowed for issuer '"@ + ci.issuer@ + "'"@ }
        },
    }
}

/// What a token comes to with one issuer, given what the clock says.
pub open spec fn verdict(
    ci: CompiledIssuer,
    token: Seq<char>,
    clock: Clock,
    resolution: ResolutionConfig,
) -> Outcome {
    judged(ci, check_at(ci, token, clock), resolution)
}

/// The rules that the claims of a token are held to for an issuer.
pub fn rules_for(ci: &CompiledIssuer) -> (r: ClaimsValidationRules)
    ensures
        demands(r) == asked_for(*ci),
{
    let mut rules = new_rules();
    ask_issuer(&mut rules, ci.issuer.as_str());
    if ci.audiences.len() == 1 {
        ask_audience(&mut rules, ci.audiences[0].as_str());
    }
    rules
}

/// Reads what came of verifying or decrypting a token.
pub fn check_of(trusted: Result<TrustedToken, Error>) -> (r: TokenCheck)
    requires
        trusted matches Ok(token) ==> (token_claims(token) matches Some(claims) && shallow(claims)),
    ensures
        match trusted {
            Ok(token) => r@ == (Checked::Verified {
                claims: JsonTree::Object(token_claims(token)->0),
            }),
            Err(cause) => r@ == (Checked::Rejected { error: error_message(cause) }),
        },
{
    let token = match trusted {
        Ok(token) => token,
        Err(e) => {
            return TokenCheck::Rejected { error: error_text(&e) };
        },
    };
    let claims = match payload_claims(&token) {
        Some(claims) => claims,
        None => {
            return TokenCheck::NoClaims;
        },
    };
    let text = match claims_text(claims) {
        Ok(text) => text,
        Err(_) => {
            return TokenCheck::Unreadable;
        },
    };
    match parse_json(text.as_str()) {
        Some(json) => TokenCheck::Verified { claims: json },
        None => TokenCheck::Unreadable,
    }
}

/// Whether `pasetors` answered that, when it was called to verify or decrypt a token with
/// the key of an issuer and to hold its claims to what is asked for that issuer.
pub closed spec fn answered(
    ci: CompiledIssuer,
    token: Seq<char>,
    trusted: Result<TrustedToken, Error>,
) -> bool {
    match ci.key {
        CompiledKey::Public(key) => exists|
            untrusted: UntrustedToken<Public, V4>,
            rules: ClaimsValidationRules,
        |
            {
                &&& #[trigger] call_ensures(verify_public, (&key, &untrusted, &rules), trusted)
                &&& public_token(token) == Ok::<_, Error>(public_parts(untrusted))
                &&& demands(rules) == asked_for(ci)
            },
        CompiledKey::Local(key) => exists|
            untrusted: UntrustedToken<Local, V4>,
            rules: ClaimsValidationRules,
        |
            {
                &&& #[trigger] call_ensures(decrypt_local, (&key, &untrusted, &rules), trusted)
                &&& local_token(token) == Ok::<_, Error>(local_parts(untrusted))
                &&& demands(rules) == asked_for(ci)
            },
    }
}

/// An answer for a signed token is what a call of `pasetors::public::verify` returned for
/// the key of the issuer, the token, and rules that ask for valid times, for the issuer,
/// and for the audience where a single one is listed.
pub(crate) proof fn law_answer_to_verify(
    ci: CompiledIssuer,
    key: AsymmetricPublicKey<V4>,
    token: Seq<char>,
    trusted: Result<TrustedToken, Error>,
)
    requires
        ci.key == CompiledKey::Public(key),
        answered(ci, token, trusted),
    ensures
        exists|untrusted: UntrustedToken<Public, V4>, rules: ClaimsValidationRules|
            {
                &&& #[trigger] call_ensures(verify_public, (&key, &untrusted, &rules), trusted)
                &&& public_token(token) == Ok::<_, Error>(public_parts(untrusted))
                &&& demands(rules) == (Demands {
                    valid_at: true,
                    expiring: true,
                    issuer: Some(ci.issuer@),
                    subject: None,
                    audience: if ci.audiences@.len() == 1 {
                        Some(ci.audiences@[0]@)
                    } else {
                        None
                    },
                    identifier: None,
                })
            },
{
}

/// An answer for an encrypted token is what a call of `pasetors::local::decrypt` returned
/// for the key of the issuer, the token, and rules that ask for valid times, for the
/// issuer, and for the audience where a single one is listed.
pub(crate) proof fn law_answer_to_decrypt(
    ci: CompiledIssuer,
    key: SymmetricKey<V4>,
    token: Seq<char>,
    trusted: Result<TrustedToken, Error>,
)
    requires
        ci.key == CompiledKey::Local(key),
        answered(ci, token, trusted),
    ensures
        exists|untrusted: UntrustedToken<Local, V4>, rules: ClaimsValidationRules|
            {
                &&& #[trigger] call_ensures(decrypt_local, (&key, &untrusted, &rules), trusted)
                &&& local_token(token) == Ok::<_, Error>(local_parts(untrusted))
                &&& demands(rules) == (Demands {
                    valid_at: true,
                    expiring: true,
                    issuer: Some(ci.issuer@),
                    subject: None,
                    audience: if ci.audiences@.len() == 1 {
                        Some(ci.audiences@[0]@)
                    } else {
                        None
                    },
                    identifier: None,
                })
            },
{
}

/// An answer agrees with what is found under the key and with what the clock says.
pub proof fn law_answer_upholds(
    ci: CompiledIssuer,
    token: Seq<char>,
    trusted: Result<TrustedToken, Error>,
)
    requires
        answered(ci, token, trusted),
    ensures
        match ci.key {
            CompiledKey::Public(key) => public_token(token) matches Ok(parts) && upholds(
                signed_claims(public_key_bytes(key), parts),
                asked_for(ci),
                trusted,
            ),
            CompiledKey::Local(key) => local_token(token) matches Ok(parts) && upholds(
                sealed_claims(local_key_bytes(key), parts),
                asked_for(ci),
                trusted,
            ),
        },
{
    match ci.key {
        CompiledKey::Public(key) => {
            let (untrusted, rules) = choose|
                untrusted: UntrustedToken<Public, V4>,
                rules: ClaimsValidationRules,
            |
                {
                    &&& #[trigger] call_ensures(verify_public, (&key, &untrusted, &rules), trusted)
                    &&& public_token(token) == Ok::<_, Error>(public_parts(untrusted))
                    &&& demands(rules) == asked_for(ci)
                };
            assert(call_ensures(verify_public, (&key, &untrusted, &rules), trusted));
        },
        CompiledKey::Local(key) => {
            let (untrusted, rules) = choose|
                untrusted: UntrustedToken<Local, V4>,
                rules: ClaimsValidationRules,
            |
                {
                    &&& #[trigger] call_ensures(decrypt_local, (&key, &untrusted, &rules), trusted)
                    &&& local_token(token) == Ok::<_, Error>(local_parts(untrusted))
                    &&& demands(rules) == asked_for(ci)
                };
            assert(call_ensures(decrypt_local, (&key, &untrusted, &rules), trusted));
        },
    }
}

/// Whether a check says what `pasetors` answered about a token, and nothing else.
pub open spec fn tells(ci: CompiledIssuer, token: Seq<char>, check: Checked) -> bool {
    match check {
        Checked::NotPublic { error } => ci.key is Public && (public_token(token) matches Err(cause)
            && error == error_message(cause)),
        Checked::NotLocal { error } => ci.key is Local && (local_token(token) matches Err(cause)
            && error == error_message(cause)),
        Checked::Rejected { error } => exists|cause: Error| #[trigger]
            answered(ci, token, Err(cause)) && error == error_message(cause),
        Checked::Verified { claims } => exists|trusted: TrustedToken| #[trigger]
            answered(ci, token, Ok(trusted)) && (token_claims(trusted) matches Some(found)
                && claims == JsonTree::Object(found)),
        _ => false,
    }
}

/// What is found under the key of an issuer in a token that could be taken apart.
spec fn found_under(ci: CompiledIssuer, token: Seq<char>) -> Result<
    Map<Seq<char>, JsonTree>,
    Error,
> {
    match ci.key {
        CompiledKey::Public(key) => signed_claims(
            public_key_bytes(key),
            public_token(token)->Ok_0,
        ),
        CompiledKey::Local(key) => sealed_claims(local_key_bytes(key), local_token(token)->Ok_0),
    }
}

/// Checks a token with the key of an issuer.
pub fn check_token(ci: &CompiledIssuer, token: &str) -> (r: TokenCheck)
    ensures
        exists|clock: Clock| r@ == #[trigger] check_at(*ci, token@, clock),
        tells(*ci, token@, r@),
{
    let rules = rules_for(ci);
    let trusted = match &ci.key {
        CompiledKey::Public(key) => match read_public_token(token) {
            Ok(untrusted) => {
                let trusted = verify_public(key, &untrusted, &rules);
                assert(call_ensures(verify_public, (key, &untrusted, &rules), trusted));
                trusted
            },
            Err(e) => {
                let check = TokenCheck::NotPublic { error: error_text(&e) };
                assert(check@ == check_at(*ci, token@, agreeing_clock()));
                return check;
            },
        },
        CompiledKey::Local(key) => match read_local_token(token) {
            Ok(untrusted) => {
                let trusted = decrypt_local(key, &untrusted, &rules);
                assert(call_ensures(decrypt_local, (key, &untrusted, &rules), trusted));
                trusted
            },
            Err(e) => {
                let check = TokenCheck::NotLocal { error: error_text(&e) };
                assert(check@ == check_at(*ci, token@, agreeing_clock()));
                return check;
            },
        },
    };
    let ghost found = found_under(*ci, token@);
    let ghost clock = match found {
        Ok(claims) => choose|clock: Clock| #[trigger]
            decides(claims, asked_for(*ci), clock, trusted),
        Err(_) => agreeing_clock(),
    };
    assert(answered(*ci, token@, trusted));
    let check = check_of(trusted);
    assert(check@ == check_at(*ci, token@, clock));
    check
}

/// Whether the audience that claims name is allowed.
pub fn allows_audience(ci: &CompiledIssuer, claims: &Json) -> (r: bool)
    ensures
        r == audience_allowed(*ci, claims@),
{
    if ci.audiences.len() <= 1 {
        return true;
    }
    let audience = match claims.get("aud") {
        Some(value) => match value.as_str() {
            Some(audience) => audience,
            None => {
                return false;
            },
        },
        None => {
            return false;
        },
    };
    let ghost listed = ci.audiences.deep_view();
    let mut i: usize = 0;
    while i < ci.audiences.len()
        invariant
            i <= ci.audiences.len(),
            ci.audiences.len() > 1,
            listed == ci.audiences.deep_view(),
            member(claims@, "aud"@) == Some(JsonTree::Text(audience@)),
            forall|j: int| 0 <= j < i ==> #[trigger] listed[j] != audience@,
        decreases ci.audiences.len() - i,
    {
        assert(listed[i as int] == ci.audiences@[i as int]@);
        if same(ci.audiences[i].as_str(), audience) {
            assert(listed.contains(audience@));
            return true;
        }
        i += 1;
    }
    false
}

/// The four given texts, one after the other.
fn join4(a: &str, b: &str, c: &str, d: &str) -> (r: String)
    ensures
        r@ == a@ + b@ + c@ + d@,
{
    let mut r = join3(a, b, c);
    r.append(d);
    r
}

/// Says what a check comes to.
pub fn judge(ci: &CompiledIssuer, check: &TokenCheck, resolution: &ResolutionConfig) -> (r:
    IdentityResolution)
    ensures
        r@ == judged(*ci, check@, *resolution),
{
    let issuer = ci.issuer.as_str();
    let reason = match check {
        TokenCheck::NotPublic { error } => join4(
            "not a v4.public token for issuer '",
            issuer,
            "': ",
            error.as_str(),
        ),
        TokenCheck::NotLocal { error } => join4(
            "not a v4.local token for issuer '",
            issuer,
            "': ",
            error.as_str(),
        ),
        TokenCheck::Rejected { error } => join4(
            "token verification failed for issuer '",
            issuer,
            "': ",
            error.as_str(),
        ),
        TokenCheck::NoClaims => "verified token carried no claims".to_owned(),
        TokenCheck::Unreadable => "could not read verified token claims".to_owned(),
        TokenCheck::Verified { claims } => {
            if allows_audience(ci, claims) {
                return map_claims(ci, claims, resolution);
            }
            join3("audience not allowed for issuer '", issuer, "'")
        },
    };
    IdentityResolution::Invalid { reason }
}

/// Resolves a token with one issuer.
pub fn verify_against_issuer(
    ci: &CompiledIssuer,
    token: &str,
    resolution: &ResolutionConfig,
) -> (r: IdentityResolution)
    ensures
        exists|clock: Clock| r@ == #[trigger] verdict(*ci, token@, clock, *resolution),
        exists|check: TokenCheck| #[trigger]
            call_ensures(check_token, (ci, token), check) && call_ensures(
                judge,
                (ci, &check, resolution),
                r,
            ),
        r@ is Resolved || r@ is Invalid,
{
    let check = check_token(ci, token);
    let ghost clock = choose|clock: Clock| check@ == #[trigger] check_at(*ci, token@, clock);
    let r = judge(ci, &check, resolution);
    assert(call_ensures(check_token, (ci, token), check));
    assert(call_ensures(judge, (ci, &check, resolution), r));
    assert(r@ == verdict(*ci, token@, clock, *resolution));
    r
}

}
