//! The calls into `pasetors`: keys, tokens, validation rules, and the claims of a
//! token that verified.
//!
//! What a value of that crate holds is given by a name without a definition; the
//! contracts below say how each call sets or reads it.

use pasetors::claims::{Claims, ClaimsValidationRules};
use pasetors::errors::Error;
use pasetors::keys::{AsymmetricPublicKey, SymmetricKey};
use pasetors::token::{Local, Public, TrustedToken, UntrustedToken};
use pasetors::version4::V4;
use vstd::prelude::*;

use crate::json::{lookup, parsed_tree, JsonTree};

verus! {

// --- the types ---------------------------------------------------------------

/// `pasetors::version4::V4`, the marker of the version.
#[verifier::external_type_specification]
#[verifier::external_body]
pub struct ExV4(V4);

/// `pasetors::token::Public`, the marker of signed tokens.
#[verifier::external_type_specification]
#[verifier::external_body]
pub struct ExPublic(Public);

/// `pasetors::token::Local`, the marker of encrypted tokens.
#[verifier::external_type_specification]
#[verifier::external_body]
pub struct ExLocal(Local);

/// `pasetors::errors::Error`, the reason for which a call failed.
#[verifier::external_type_specification]
#[verifier::external_body]
pub struct ExError(Error);

/// `pasetors::keys::AsymmetricPublicKey`, a key that signatures are verified with.
#[verifier::external_type_specification]
#[verifier::external_body]
#[verifier::reject_recursive_types(V)]
pub struct ExAsymmetricPublicKey<V>(AsymmetricPublicKey<V>);

/// `pasetors::keys::SymmetricKey`, a key that tokens are decrypted with.
#[verifier::external_type_specification]
#[verifier::external_body]
#[verifier::reject_recursive_types(V)]
pub struct ExSymmetricKey<V>(SymmetricKey<V>);

/// `pasetors::token::UntrustedToken`, a token taken apart and not yet verified.
#[verifier::external_type_specification]
#[verifier::external_body]
#[verifier::reject_recursive_types(T)]
#[verifier::reject_recursive_types(V)]
pub struct ExUntrustedToken<T, V>(UntrustedToken<T, V>);

/// `pasetors::token::TrustedToken`, a token that verified.
#[verifier::external_type_specification]
#[verifier::external_body]
pub struct ExTrustedToken(TrustedToken);

/// `pasetors::claims::Claims`, the claims of a token.
#[verifier::external_type_specification]
#[verifier::external_body]
pub struct ExClaims(Claims);

/// `pasetors::claims::ClaimsValidationRules`, what the claims of a token are held to.
#[verifier::external_type_specification]
#[verifier::external_body]
pub struct ExClaimsValidationRules(ClaimsValidationRules);

// --- what their values hold --------------------------------------------------

/// The bytes that a public key holds.
pub uninterp spec fn public_key_bytes(key: AsymmetricPublicKey<V4>) -> Seq<u8>;

/// The bytes that a symmetric key holds.
pub uninterp spec fn local_key_bytes(key: SymmetricKey<V4>) -> Seq<u8>;

/// The message and the footer that a signed token holds, before verification.
pub uninterp spec fn public_parts(token: UntrustedToken<Public, V4>) -> (Seq<u8>, Seq<u8>);

/// The message and the footer that an encrypted token holds, before decryption.
pub uninterp spec fn local_parts(token: UntrustedToken<Local, V4>) -> (Seq<u8>, Seq<u8>);

/// What validation rules ask of the claims.
pub ghost struct Demands {
    /// Whether `nbf` and `iat` must be there, and not lie in the future.
    pub valid_at: bool,
    /// Whether `exp` must be there. Where it is, it must not lie in the past.
    pub expiring: bool,
    /// The issuer that must be named, if any.
    pub issuer: Option<Seq<char>>,
    /// The subject that must be named, if any.
    pub subject: Option<Seq<char>>,
    /// The audience that must be named, if any.
    pub audience: Option<Seq<char>>,
    /// The token identifier that must be named, if any.
    pub identifier: Option<Seq<char>>,
}

/// What a `ClaimsValidationRules` asks.
pub uninterp spec fn demands(rules: ClaimsValidationRules) -> Demands;

/// The claims that a `Claims` holds, by name.
pub uninterp spec fn claims_map(claims: Claims) -> Map<Seq<char>, JsonTree>;

/// The claims that a `TrustedToken` holds.
pub uninterp spec fn token_claims(token: TrustedToken) -> Option<Map<Seq<char>, JsonTree>>;

/// The text that an `Error` is displayed as.
pub uninterp spec fn error_message(error: Error) -> Seq<char>;

// --- what the calls compute --------------------------------------------------

/// What `UntrustedToken::<Public, V4>::try_from` reads from a text.
pub uninterp spec fn public_token(text: Seq<char>) -> Result<(Seq<u8>, Seq<u8>), Error>;

/// What `UntrustedToken::<Local, V4>::try_from` reads from a text.
pub uninterp spec fn local_token(text: Seq<char>) -> Result<(Seq<u8>, Seq<u8>), Error>;

/// What `pasetors::public::verify` finds before it holds the claims to the rules:
/// the claims of the message, where the signature is that of the key, and else the
/// error. The arguments are the bytes of the key, the message and the footer.
pub uninterp spec fn signed_claims(key: Seq<u8>, parts: (Seq<u8>, Seq<u8>)) -> Result<
    Map<Seq<char>, JsonTree>,
    Error,
>;

/// What `pasetors::local::decrypt` finds before it holds the claims to the rules: the
/// claims of the message, where it was encrypted with the key, and else the error.
/// The arguments are the bytes of the key, the message and the footer.
pub uninterp spec fn sealed_claims(key: Seq<u8>, parts: (Seq<u8>, Seq<u8>)) -> Result<
    Map<Seq<char>, JsonTree>,
    Error,
>;

/// Whether a claim is the given text.
pub open spec fn claim_is(
    claims: Map<Seq<char>, JsonTree>,
    name: Seq<char>,
    value: Seq<char>,
) -> bool {
    lookup(claims, name) == Some(JsonTree::Text(value))
}

/// Whether a claim is there and is a text.
pub open spec fn claim_is_text(claims: Map<Seq<char>, JsonTree>, name: Seq<char>) -> bool {
    lookup(claims, name) matches Some(JsonTree::Text(_))
}

/// Whether a claim is the text that is asked for, if one is.
pub open spec fn claim_matches(
    claims: Map<Seq<char>, JsonTree>,
    name: Seq<char>,
    asked: Option<Seq<char>>,
) -> bool {
    asked matches Some(value) ==> claim_is(claims, name, value)
}

/// Whether claims meet what rules ask, the clock aside.
pub open spec fn meets(claims: Map<Seq<char>, JsonTree>, asked: Demands) -> bool {
    &&& asked.valid_at ==> claim_is_text(claims, "nbf"@) && claim_is_text(claims, "iat"@)
    &&& asked.expiring ==> claim_is_text(claims, "exp"@)
    &&& claim_matches(claims, "iss"@, asked.issuer)
    &&& claim_matches(claims, "sub"@, asked.subject)
    &&& claim_matches(claims, "aud"@, asked.audience)
    &&& claim_matches(claims, "jti"@, asked.identifier)
}

/// What the clock says while the claims of one token are held to the rules. It is read
/// once for `nbf` and `iat`, and again for `exp`.
pub ghost struct Clock {
    /// The times that lie after the first reading.
    pub ahead: spec_fn(Seq<char>) -> bool,
    /// The times that lie before the second reading.
    pub past: spec_fn(Seq<char>) -> bool,
}

/// A clock for which no time lies ahead or in the past.
pub open spec fn agreeing_clock() -> Clock {
    Clock { ahead: |text: Seq<char>| false, past: |text: Seq<char>| false }
}

/// The text of a claim.
pub open spec fn claim_text(claims: Map<Seq<char>, JsonTree>, name: Seq<char>) -> Seq<char> {
    lookup(claims, name)->0->Text_0
}

/// Whether the clock agrees with claims: they were valid and issued by the first reading,
/// and had not expired at the second.
pub open spec fn in_time(claims: Map<Seq<char>, JsonTree>, clock: Clock) -> bool {
    &&& !(clock.ahead)(claim_text(claims, "nbf"@))
    &&& !(clock.ahead)(claim_text(claims, "iat"@))
    &&& !(clock.past)(claim_text(claims, "exp"@))
}

/// The fault of a claim that must be a time which does not lie ahead of the clock.
pub open spec fn start_fault(
    claims: Map<Seq<char>, JsonTree>,
    name: Seq<char>,
    clock: Clock,
    missing: Seq<char>,
    not_text: Seq<char>,
    early: Seq<char>,
) -> Option<Seq<char>> {
    match lookup(claims, name) {
        None => Some(missing),
        Some(JsonTree::Text(text)) => if (clock.ahead)(text) {
            Some(early)
        } else {
            None
        },
        Some(_) => Some(not_text),
    }
}

/// The fault of `exp`, which must be a time that does not lie in the past.
pub open spec fn expiry_fault(
    claims: Map<Seq<char>, JsonTree>,
    expiring: bool,
    clock: Clock,
) -> Option<Seq<char>> {
    match lookup(claims, "exp"@) {
        None => if expiring {
            Some("ClaimValidation(NoExp)"@)
        } else {
            None
        },
        Some(JsonTree::Text(text)) => if (clock.past)(text) {
            Some("ClaimValidation(Exp)"@)
        } else {
            None
        },
        Some(_) => Some("ClaimValidation(NoStrExp)"@),
    }
}

/// The fault of a claim that must be the text asked for, if one is.
pub open spec fn name_fault(
    claims: Map<Seq<char>, JsonTree>,
    name: Seq<char>,
    asked: Option<Seq<char>>,
    missing: Seq<char>,
    different: Seq<char>,
) -> Option<Seq<char>> {
    if claim_matches(claims, name, asked) {
        None
    } else if lookup(claims, name) is None {
        Some(missing)
    } else {
        Some(different)
    }
}

/// What stands against claims under rules and a clock, as the message of the error: the
/// first fault of `nbf`, `iat`, `exp`, `iss`, `sub`, `aud` and `jti`, in that order.
pub open spec fn fault(
    claims: Map<Seq<char>, JsonTree>,
    asked: Demands,
    clock: Clock,
) -> Option<Seq<char>> {
    let nbf = start_fault(
        claims,
        "nbf"@,
        clock,
        "ClaimValidation(NoNbf)"@,
        "ClaimValidation(NoStrNbf)"@,
        "ClaimValidation(Nbf)"@,
    );
    let iat = start_fault(
        claims,
        "iat"@,
        clock,
        "ClaimValidation(NoIat)"@,
        "ClaimValidation(NoStrIat)"@,
        "ClaimValidation(Iat)"@,
    );
    let exp = expiry_fault(claims, asked.expiring, clock);
    let iss = name_fault(
        claims,
        "iss"@,
        asked.issuer,
        "ClaimValidation(NoIss)"@,
        "ClaimValidation(Iss)"@,
    );
    let sub = name_fault(
        claims,
        "sub"@,
        asked.subject,
        "ClaimValidation(NoSub)"@,
        "ClaimValidation(Sub)"@,
    );
    let aud = name_fault(
        claims,
        "aud"@,
        asked.audience,
        "ClaimValidation(NoAud)"@,
        "ClaimValidation(Aud)"@,
    );
    let jti = name_fault(
        claims,
        "jti"@,
        asked.identifier,
        "ClaimValidation(NoJti)"@,
        "ClaimValidation(Jti)"@,
    );
    if asked.valid_at && nbf is Some {
        nbf
    } else if asked.valid_at && iat is Some {
        iat
    } else if exp is Some {
        exp
    } else if iss is Some {
        iss
    } else if sub is Some {
        sub
    } else if aud is Some {
        aud
    } else {
        jti
    }
}

/// Whether that is the message of a refusal by the clock: the claims are not valid yet,
/// were issued in the future, or have expired.
pub open spec fn by_clock(message: Seq<char>) -> bool {
    ||| message == "ClaimValidation(Nbf)"@
    ||| message == "ClaimValidation(Iat)"@
    ||| message == "ClaimValidation(Exp)"@
}

/// Nothing stands against claims exactly where they meet what the rules ask and the clock
/// agrees with them; where they meet it and the clock does not agree, the message says so.
pub proof fn law_fault_free(claims: Map<Seq<char>, JsonTree>, asked: Demands, clock: Clock)
    requires
        asked.valid_at,
        asked.expiring,
    ensures
        fault(claims, asked, clock) is None <==> meets(claims, asked) && in_time(claims, clock),
        meets(claims, asked) ==> (fault(claims, asked, clock) matches Some(message) ==> by_clock(
            message,
        )),
{
}

/// Whether at most `depth` arrays and objects of a tree lie within one another.
pub open spec fn nests_within(tree: JsonTree, depth: nat) -> bool
    decreases depth,
{
    match tree {
        JsonTree::Array(items) => depth > 0 && forall|i: int|
            0 <= i < items.len() ==> nests_within(#[trigger] items[i], (depth - 1) as nat),
        JsonTree::Object(members) => depth > 0 && forall|name: Seq<char>| #[trigger]
            members.dom().contains(name) ==> nests_within(members[name], (depth - 1) as nat),
        _ => true,
    }
}

/// The greatest depth of a text that `serde_json` reads.
pub const JSON_DEPTH: usize = 127;

/// Whether claims nest no deeper than that.
pub open spec fn shallow(claims: Map<Seq<char>, JsonTree>) -> bool {
    nests_within(JsonTree::Object(claims), JSON_DEPTH as nat)
}

/// Whether a result is what claims that were found come to under rules and a clock.
pub open spec fn decides(
    claims: Map<Seq<char>, JsonTree>,
    asked: Demands,
    clock: Clock,
    r: Result<TrustedToken, Error>,
) -> bool {
    match fault(claims, asked, clock) {
        None => r matches Ok(token) && token_claims(token) == Some(claims),
        Some(message) => r matches Err(error) && error_message(error) == message,
    }
}

/// What a verification or a decryption returns, given what was found before the claims
/// were held to the rules: what was found where that is an error, and else what the claims
/// come to under the rules and some readings of the clock.
pub open spec fn upholds(
    found: Result<Map<Seq<char>, JsonTree>, Error>,
    asked: Demands,
    r: Result<TrustedToken, Error>,
) -> bool {
    match found {
        Err(cause) => r matches Err(error) && error == cause,
        Ok(claims) => shallow(claims) && exists|clock: Clock| #[trigger]
            decides(claims, asked, clock, r),
    }
}

// --- the calls ---------------------------------------------------------------

/// `AsymmetricPublicKey::<V4>::from`: takes over exactly 32 bytes, and refuses any
/// other number of them.
#[verifier::external_body]
pub(crate) fn load_public_key(bytes: &[u8]) -> (r: Result<AsymmetricPublicKey<V4>, Error>)
    ensures
        r is Ok <==> bytes@.len() == 32,
        r matches Ok(key) ==> public_key_bytes(key) == bytes@,
{
    AsymmetricPublicKey::<V4>::from(bytes)
}

/// `SymmetricKey::<V4>::from`: takes over exactly 32 bytes, and refuses any other
/// number of them.
#[verifier::external_body]
pub(crate) fn load_local_key(bytes: &[u8]) -> (r: Result<SymmetricKey<V4>, Error>)
    ensures
        r is Ok <==> bytes@.len() == 32,
        r matches Ok(key) ==> local_key_bytes(key) == bytes@,
{
    SymmetricKey::<V4>::from(bytes)
}

/// `UntrustedToken::<Public, V4>::try_from`: takes a token apart. It reads the text
/// alone, refuses every text that does not start with `v4.public.` as being of another
/// format, and keeps no message that is too short to hold more than a signature.
#[verifier::external_body]
pub(crate) fn read_public_token(text: &str) -> (r: Result<UntrustedToken<Public, V4>, Error>)
    ensures
        public_token(text@) == match r {
            Ok(token) => Ok(public_parts(token)),
            Err(error) => Err(error),
        },
        r is Ok ==> "v4.public."@.is_prefix_of(text@),
        r matches Err(error) ==> ("v4.public."@.is_prefix_of(text@) || error_message(error)
            == "TokenFormat"@),
        r matches Ok(token) ==> public_parts(token).0.len() > 64,
{
    UntrustedToken::<Public, V4>::try_from(text)
}

/// `UntrustedToken::<Local, V4>::try_from`: takes a token apart. It reads the text
/// alone, refuses every text that does not start with `v4.local.` as being of another
/// format, and keeps no message that is too short to hold more than a nonce and a tag.
#[verifier::external_body]
pub(crate) fn read_local_token(text: &str) -> (r: Result<UntrustedToken<Local, V4>, Error>)
    ensures
        local_token(text@) == match r {
            Ok(token) => Ok(local_parts(token)),
            Err(error) => Err(error),
        },
        r is Ok ==> "v4.local."@.is_prefix_of(text@),
        r matches Err(error) ==> ("v4.local."@.is_prefix_of(text@) || error_message(error)
            == "TokenFormat"@),
        r matches Ok(token) ==> local_parts(token).0.len() > 64,
{
    UntrustedToken::<Local, V4>::try_from(text)
}

/// `ClaimsValidationRules::new`: asks that the times be there and agree with the
/// clock, and nothing else.
#[verifier::external_body]
pub(crate) fn new_rules() -> (r: ClaimsValidationRules)
    ensures
        demands(r) == (Demands {
            valid_at: true,
            expiring: true,
            issuer: None,
            subject: None,
            audience: None,
            identifier: None,
        }),
{
    ClaimsValidationRules::new()
}

/// `ClaimsValidationRules::validate_issuer_with`: asks for that issuer from now on.
#[verifier::external_body]
pub(crate) fn ask_issuer(rules: &mut ClaimsValidationRules, issuer: &str)
    ensures
        demands(*final(rules)) == (Demands { issuer: Some(issuer@), ..demands(*old(rules)) }),
{
    rules.validate_issuer_with(issuer)
}

/// `ClaimsValidationRules::validate_audience_with`: asks for that audience from now on.
#[verifier::external_body]
pub(crate) fn ask_audience(rules: &mut ClaimsValidationRules, audience: &str)
    ensures
        demands(*final(rules)) == (Demands { audience: Some(audience@), ..demands(*old(rules)) }),
{
    rules.validate_audience_with(audience)
}

/// `pasetors::public::verify`, with no footer asked for and no implicit assertion. What
/// is found under the key depends on the key and the token alone. Claims that are found are
/// one JSON object that `serde_json` read, with `nbf`, `iat` and `exp` read as times where
/// they are there. They are then held to the rules and the clock, claim by claim, and the
/// first fault is the error. Not stated: what the clock says.
#[verifier::external_body]
pub(crate) fn verify_public(
    key: &AsymmetricPublicKey<V4>,
    token: &UntrustedToken<Public, V4>,
    rules: &ClaimsValidationRules,
) -> (r: Result<TrustedToken, Error>)
    requires
        public_parts(*token).0.len() > 64,
    ensures
        upholds(signed_claims(public_key_bytes(*key), public_parts(*token)), demands(*rules), r),
{
    pasetors::public::verify(key, token, rules, None, None)
}

/// `pasetors::local::decrypt`, with no footer asked for and no implicit assertion. What
/// is found under the key depends on the key and the token alone. Claims that are found are
/// one JSON object that `serde_json` read, with `nbf`, `iat` and `exp` read as times where
/// they are there. They are then held to the rules and the clock, claim by claim, and the
/// first fault is the error. Not stated: what the clock says.
#[verifier::external_body]
pub(crate) fn decrypt_local(
    key: &SymmetricKey<V4>,
    token: &UntrustedToken<Local, V4>,
    rules: &ClaimsValidationRules,
) -> (r: Result<TrustedToken, Error>)
    requires
        local_parts(*token).0.len() > 64,
    ensures
        upholds(sealed_claims(local_key_bytes(*key), local_parts(*token)), demands(*rules), r),
{
    pasetors::local::decrypt(key, token, rules, None, None)
}

/// `TrustedToken::payload_claims`: the claims that the token holds. A token without
/// claims fails an assertion there.
#[verifier::external_body]
pub(crate) fn payload_claims(token: &TrustedToken) -> (r: Option<&Claims>)
    requires
        token_claims(*token) is Some,
    ensures
        token_claims(*token) == match r {
            Some(claims) => Some(claims_map(*claims)),
            None => None,
        },
{
    token.payload_claims()
}

/// `Claims::to_string`: writes the claims as a JSON object, from which `serde_json` reads
/// the same claims back. Not stated: the text itself, in which the order of the claims is
/// open. Claims that nest deeper are left out: `serde_json` would not read them back.
#[verifier::external_body]
pub(crate) fn claims_text(claims: &Claims) -> (r: Result<String, Error>)
    requires
        shallow(claims_map(*claims)),
    ensures
        r is Ok,
        r matches Ok(text) ==> parsed_tree(text@) == Some(JsonTree::Object(claims_map(*claims))),
{
    claims.to_string()
}

/// The `Display` text of a `pasetors::errors::Error`, which depends on the error alone.
#[verifier::external_body]
pub(crate) fn error_text(error: &Error) -> (r: String)
    ensures
        r@ == error_message(*error),
{
    error.to_string()
}

}
