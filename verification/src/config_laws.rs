//! What the results of calls on a configuration satisfy, said of the results and the
//! arguments.

use vstd::prelude::*;
use vstd::utf8::encode_utf8;

use crate::claim_laws::says_something;
use crate::config::{
    default_auth_provider_label, default_scope_claim_paths, default_subject_claim,
    default_token_source_kind, default_trust_level, first_repeated, hex_bytes, hex_value,
    is_hex_digit, repeated, sound_at, sound_up_to, spelled_bytes, valid_config, valid_issuer,
    valid_key, ClaimMappingConfig, IssuerConfig, KeyMaterialConfig, PasetoConfig, ResolutionConfig,
    TokenSourceConfig, TokenSourceKind,
};
use crate::error::{CompileError, ConfigError, HexError, IssuerError, KeyError, LoadError};
use crate::issuer::{compile_issuer, CompiledIssuer, CompiledKey};
use crate::paseto::{local_key_bytes, public_key_bytes};
use crate::plugin::PasetoIdentityPlugin;
use crate::text::{decimal, trimmed};
use crate::text_laws::{is_core, law_core};

verus! {

broadcast use {vstd::string::group_string_axioms, vstd::seq_lib::group_seq_properties};

// --- keys --------------------------------------------------------------------

/// The text that key material was written as.
pub open spec fn written(key: KeyMaterialConfig) -> Seq<char> {
    match key {
        KeyMaterialConfig::PublicHex { hex } => hex@,
        KeyMaterialConfig::LocalHex { hex } => hex@,
    }
}

/// Whether a character is a hexadecimal digit that stands for that number.
pub open spec fn is_nibble(c: char, n: int) -> bool {
    ||| '0' <= c <= '9' && n == c as int - '0' as int
    ||| 'a' <= c <= 'f' && n == c as int - 'a' as int + 10
    ||| 'A' <= c <= 'F' && n == c as int - 'A' as int + 10
}

/// Whether every character is a hexadecimal digit.
pub open spec fn all_digits(t: Seq<char>) -> bool {
    forall|i: int|
        0 <= i < t.len() ==> '0' <= #[trigger] t[i] <= '9' || 'a' <= t[i] <= 'f' || 'A' <= t[i]
            <= 'F'
}

/// Whether two digits spell a byte, the high one first.
pub open spec fn spells_byte(first: char, second: char, byte: u8) -> bool {
    exists|high: int, low: int|
        #![trigger is_nibble(first, high), is_nibble(second, low)]
        is_nibble(first, high) && is_nibble(second, low) && byte == 16 * high + low
}

/// Whether digits spell bytes, two digits each.
pub open spec fn spells(t: Seq<char>, bytes: Seq<u8>) -> bool {
    &&& t.len() == 2 * bytes.len()
    &&& forall|i: int|
        0 <= i < bytes.len() ==> spells_byte(t[2 * i], t[2 * i + 1], #[trigger] bytes[i])
}

/// Whether key material spells those bytes, in hexadecimal digits with white space around
/// them at most.
pub open spec fn spells_key(key: KeyMaterialConfig, bytes: Seq<u8>) -> bool {
    exists|t: Seq<char>| #[trigger] is_core(written(key), t) && all_digits(t) && spells(t, bytes)
}

/// Whether key material can be loaded: without the white space around it, it is 64
/// hexadecimal digits.
pub open spec fn key_in_order(key: KeyMaterialConfig) -> bool {
    exists|t: Seq<char>| #[trigger] is_core(written(key), t) && all_digits(t) && t.len() == 64
}

proof fn lemma_hex_spells(t: Seq<char>)
    ensures
        hex_bytes(t) is Some <==> all_digits(t) && t.len() % 2 == 0,
        hex_bytes(t) matches Some(bytes) ==> spells(t, bytes),
{
    assert(all_digits(t) <==> forall|i: int| 0 <= i < t.len() ==> is_hex_digit(#[trigger] t[i]));
    if let Some(bytes) = hex_bytes(t) {
        assert forall|i: int| 0 <= i < bytes.len() implies spells_byte(
            t[2 * i],
            t[2 * i + 1],
            #[trigger] bytes[i],
        ) by {
            assert(is_hex_digit(t[2 * i]));
            assert(is_hex_digit(t[2 * i + 1]));
            let high = hex_value(t[2 * i]);
            let low = hex_value(t[2 * i + 1]);
            assert(is_nibble(t[2 * i], high) && is_nibble(t[2 * i + 1], low));
        }
    }
}

proof fn lemma_key_in_order(key: KeyMaterialConfig)
    ensures
        valid_key(key) <==> key_in_order(key),
        valid_key(key) ==> spells_key(key, spelled_bytes(key)->0),
{
    let t = trimmed(written(key));
    law_core(written(key), t);
    lemma_hex_spells(t);
    assert(spelled_bytes(key) == hex_bytes(t));
    if key_in_order(key) {
        let u = choose|u: Seq<char>| #[trigger]
            is_core(written(key), u) && all_digits(u) && u.len() == 64;
        law_core(written(key), u);
    }
}

/// Whether that is why a text is not hexadecimal, looked at as its bytes: an odd number of
/// them, or else the first that is no digit, with its place.
pub open spec fn explains(t: Seq<char>, cause: HexError) -> bool {
    let bytes = encode_utf8(t);
    match cause {
        HexError::OddLength => bytes.len() % 2 == 1,
        HexError::InvalidHexCharacter { c, index } => {
            &&& bytes.len() % 2 == 0
            &&& index < bytes.len()
            &&& c as u32 == bytes[index as int]
            &&& !all_digits(seq![c])
            &&& forall|i: int|
                0 <= i < index ==> 48 <= #[trigger] bytes[i] <= 57 || 65 <= bytes[i] <= 70 || 97
                    <= bytes[i] <= 102
        },
        HexError::InvalidStringLength => false,
    }
}

/// The bytes of a key are those that its digits spell, 32 of them, and there are bytes
/// exactly where the material is 64 digits with white space around them at most. What is
/// wrong else: a character that is no digit, an odd number of them, or another number of
/// bytes.
pub proof fn law_key_bytes(key: KeyMaterialConfig, r: Result<Vec<u8>, KeyError>)
    requires
        call_ensures(KeyMaterialConfig::key_bytes, (&key,), r),
    ensures
        r is Ok <==> key_in_order(key),
        r matches Ok(bytes) ==> bytes@.len() == 32 && spells_key(key, bytes@),
        r matches Err(KeyError::Length { got }) ==> got != 32 && exists|t: Seq<char>| #[trigger]
            is_core(written(key), t) && all_digits(t) && t.len() == 2 * got,
        r matches Err(KeyError::NotHex { cause }) ==> exists|t: Seq<char>| #[trigger]
            is_core(written(key), t) && (!all_digits(t) || t.len() % 2 != 0) && explains(t, cause),
{
    lemma_key_in_order(key);
    let t = trimmed(written(key));
    law_core(written(key), t);
    lemma_hex_spells(t);
    assert(is_core(written(key), t));
    if let Err(KeyError::NotHex { cause: HexError::InvalidHexCharacter { c, index } }) = r {
        assert(seq![c][0] == c);
        assert(!all_digits(seq![c]));
    }
}

/// Key material is accepted exactly where it can be loaded.
pub proof fn law_key_validate(key: KeyMaterialConfig, r: Result<(), KeyError>)
    requires
        call_ensures(KeyMaterialConfig::validate, (&key,), r),
    ensures
        r is Ok <==> key_in_order(key),
{
    lemma_key_in_order(key);
}

// --- profiles and configurations ---------------------------------------------

/// Whether an issuer profile can be loaded: its issuer says something, an audience is
/// listed or any is allowed, and its key is in order.
pub open spec fn profile_in_order(profile: IssuerConfig) -> bool {
    &&& says_something(profile.issuer@)
    &&& profile.audiences@.len() > 0 || profile.allow_any_audience
    &&& key_in_order(profile.key)
}

proof fn lemma_profile(profile: IssuerConfig)
    ensures
        valid_issuer(profile) <==> profile_in_order(profile),
{
    lemma_key_in_order(profile.key);
}

/// An issuer profile is accepted exactly where it can be loaded, and the first thing that
/// is wrong is reported.
pub proof fn law_issuer_validate(profile: IssuerConfig, r: Result<(), IssuerError>)
    requires
        call_ensures(IssuerConfig::validate, (&profile,), r),
    ensures
        r is Ok <==> profile_in_order(profile),
        r matches Err(IssuerError::EmptyIssuer) ==> !says_something(profile.issuer@),
        r matches Err(IssuerError::NoAudience) ==> says_something(profile.issuer@)
            && profile.audiences@.len() == 0 && !profile.allow_any_audience,
        r matches Err(IssuerError::Key { .. }) ==> says_something(profile.issuer@) && (
        profile.audiences@.len() > 0 || profile.allow_any_audience) && !key_in_order(profile.key),
{
    lemma_profile(profile);
    lemma_key_in_order(profile.key);
}

/// Whether the first `n` profiles can be loaded side by side: each of them can, and no
/// issuer occurs twice.
pub open spec fn profiles_in_order(profiles: Seq<IssuerConfig>, n: int) -> bool {
    &&& forall|i: int| 0 <= i < n ==> profile_in_order(#[trigger] profiles[i])
    &&& forall|i: int, j: int|
        0 <= i < j < n ==> (#[trigger] profiles[i]).issuer@ != (#[trigger] profiles[j]).issuer@
}

/// Whether a trust level is one of the two that exist.
pub open spec fn level_exists(level: Seq<char>) -> bool {
    level == "verified"@ || level == "header_asserted"@
}

/// Whether a configuration can be loaded.
pub open spec fn config_in_order(config: PasetoConfig) -> bool {
    &&& config.issuers@.len() > 0
    &&& profiles_in_order(config.issuers@, config.issuers@.len() as int)
    &&& level_exists(config.resolution.trust_level@)
}

proof fn lemma_profiles(profiles: Seq<IssuerConfig>, n: int)
    requires
        0 <= n <= profiles.len(),
    ensures
        sound_up_to(profiles, n) <==> profiles_in_order(profiles, n),
{
    if sound_up_to(profiles, n) {
        assert forall|i: int| 0 <= i < n implies profile_in_order(#[trigger] profiles[i]) by {
            assert(sound_at(profiles, i));
            lemma_profile(profiles[i]);
        }
        assert forall|i: int, j: int| 0 <= i < j < n implies (#[trigger] profiles[i]).issuer@ != (
        #[trigger] profiles[j]).issuer@ by {
            assert(sound_at(profiles, j));
            assert(!repeated(profiles, j));
        }
    }
    if profiles_in_order(profiles, n) {
        assert forall|i: int| 0 <= i < n implies #[trigger] sound_at(profiles, i) by {
            lemma_profile(profiles[i]);
            assert(profile_in_order(profiles[i]));
        }
    }
}

proof fn lemma_config(config: PasetoConfig)
    ensures
        valid_config(config) <==> config_in_order(config),
{
    lemma_profiles(config.issuers@, config.issuers@.len() as int);
}

/// A configuration is accepted exactly where it can be loaded, and the first fault in the
/// order of the issuers is reported, the trust level coming last.
pub proof fn law_config_validate(config: PasetoConfig, r: Result<(), ConfigError>)
    requires
        call_ensures(PasetoConfig::validate, (&config,), r),
    ensures
        r is Ok <==> config_in_order(config),
        r matches Err(ConfigError::NoIssuers) ==> config.issuers@.len() == 0,
        r matches Err(ConfigError::Issuer { index, .. }) ==> index < config.issuers@.len()
            && profiles_in_order(config.issuers@, index as int) && !profile_in_order(
            config.issuers@[index as int],
        ),
        r matches Err(ConfigError::DuplicateIssuer { issuer }) ==> exists|i: int, j: int|
            {
                &&& 0 <= i < j < config.issuers@.len()
                &&& (#[trigger] config.issuers@[i]).issuer@ == issuer@
                &&& (#[trigger] config.issuers@[j]).issuer@ == issuer@
                &&& profiles_in_order(config.issuers@, j)
                &&& profile_in_order(config.issuers@[j])
            },
        r matches Err(ConfigError::TrustLevel { got }) ==> profiles_in_order(
            config.issuers@,
            config.issuers@.len() as int,
        ) && !level_exists(got@) && got@ == config.resolution.trust_level@,
{
    lemma_config(config);
    let profiles = config.issuers@;
    match r {
        Err(ConfigError::Issuer { index, .. }) => {
            lemma_profiles(profiles, index as int);
            lemma_profile(profiles[index as int]);
            lemma_key_in_order(profiles[index as int].key);
        },
        Err(ConfigError::DuplicateIssuer { issuer }) => {
            let j = choose|j: int| #[trigger]
                first_repeated(profiles, j) && issuer@ == profiles[j].issuer@;
            lemma_profiles(profiles, j);
            lemma_profile(profiles[j]);
            let i = choose|i: int|
                0 <= i < j && (#[trigger] profiles[i]).issuer@ == profiles[j].issuer@;
            assert(profiles[i].issuer@ == issuer@ && profiles[j].issuer@ == issuer@);
        },
        Err(ConfigError::TrustLevel { got }) => {
            lemma_profiles(profiles, profiles.len() as int);
        },
        _ => {},
    }
}

/// A trust level is accepted exactly where it is one of the two that exist.
pub proof fn law_resolution_validate(resolution: ResolutionConfig, r: Result<(), ConfigError>)
    requires
        call_ensures(ResolutionConfig::validate, (&resolution,), r),
    ensures
        r is Ok <==> level_exists(resolution.trust_level@),
{
}

// --- loading -----------------------------------------------------------------

/// Whether a loaded issuer is what its profile says, for either kind of key: the issuer,
/// the audiences and the claim mappings of the profile, and a key of the kind and with the
/// bytes that the profile spells.
pub open spec fn loads(ci: CompiledIssuer, profile: IssuerConfig) -> bool {
    &&& ci.issuer@ == profile.issuer@
    &&& ci.audiences.deep_view() == profile.audiences.deep_view()
    &&& ci.claim_mappings == profile.claim_mappings
    &&& profile.key is PublicHex ==> (ci.key matches CompiledKey::Public(key) && spells_key(
        profile.key,
        public_key_bytes(key),
    ))
    &&& profile.key is LocalHex ==> (ci.key matches CompiledKey::Local(key) && spells_key(
        profile.key,
        local_key_bytes(key),
    ))
}

/// An issuer is loaded as its profile says, exactly where its key is in order.
pub proof fn law_compile_issuer(
    profile: IssuerConfig,
    r: Result<CompiledIssuer, CompileError>,
)
    requires
        call_ensures(compile_issuer, (profile,), r),
    ensures
        r is Ok <==> key_in_order(profile.key),
        r matches Ok(ci) ==> loads(ci, profile),
{
    lemma_key_in_order(profile.key);
}

/// A configuration is loaded as it is written, exactly where it can be: every issuer, in
/// order, as its profile says, and the source of the token and the resolution.
pub proof fn law_from_config(
    config: PasetoConfig,
    r: Result<PasetoIdentityPlugin, LoadError>,
)
    requires
        call_ensures(PasetoIdentityPlugin::from_config, (config,), r),
    ensures
        r is Ok <==> config_in_order(config),
        r matches Ok(plugin) ==> {
            &&& plugin.inner.token_source == config.token_source
            &&& plugin.inner.resolution == config.resolution
            &&& plugin.inner.issuers@.len() == config.issuers@.len()
            &&& forall|i: int|
                0 <= i < config.issuers@.len() ==> loads(
                    #[trigger] plugin.inner.issuers@[i],
                    config.issuers@[i],
                )
        },
{
    lemma_config(config);
    if let Ok(plugin) = r {
        assert forall|i: int| 0 <= i < config.issuers@.len() implies loads(
            #[trigger] plugin.inner.issuers@[i],
            config.issuers@[i],
        ) by {
            assert(sound_at(config.issuers@, i));
            lemma_key_in_order(config.issuers@[i].key);
        }
    }
}

// --- messages ----------------------------------------------------------------

/// What the errors of key material say.
pub proof fn law_key_error_message(error: KeyError, r: String)
    requires
        call_ensures(KeyError::message, (&error,), r),
    ensures
        error is NotHex ==> r@ == "key hex is not valid hex"@,
        error matches KeyError::Length { got } ==> r@ == "key must decode to 32 bytes, got "@
            + decimal(got as nat),
{
}

/// What the errors of an issuer profile say.
pub proof fn law_issuer_error_message(error: IssuerError, r: String)
    requires
        call_ensures(IssuerError::message, (&error,), r),
    ensures
        error is EmptyIssuer ==> r@ == "issuer must not be empty"@,
        error is NoAudience ==> r@
            == "audiences is empty — refusing to skip audience validation (a token minted for another service would be accepted). Set `audiences`, or opt in with `allow_any_audience: true`"@,
        error matches IssuerError::Key { error: KeyError::NotHex { .. } } ==> r@
            == "key hex is not valid hex"@,
        error matches IssuerError::Key { error: KeyError::Length { got } } ==> r@
            == "key must decode to 32 bytes, got "@ + decimal(got as nat),
{
}

/// What the errors of a configuration say.
pub proof fn law_config_error_message(error: ConfigError, r: String)
    requires
        call_ensures(ConfigError::message, (&error,), r),
    ensures
        error is NoIssuers ==> r@ == "identity.paseto: `issuers` must be non-empty"@,
        error matches ConfigError::Issuer { index, .. } ==> r@ == "identity.paseto: issuers["@
            + decimal(index as nat) + "]"@,
        error matches ConfigError::DuplicateIssuer { issuer } ==> r@
            == "identity.paseto: duplicate issuer '"@ + issuer@ + "'"@,
        error matches ConfigError::TrustLevel { got } ==> r@
            == "resolution.trust_level must be `verified` or `header_asserted`, got '"@ + got@
            + "'"@,
{
}

/// What the errors of loading a key say.
pub proof fn law_compile_error_message(error: CompileError, r: String)
    requires
        call_ensures(CompileError::message, (&error,), r),
    ensures
        error matches CompileError::Public { cause } ==> r@ == "invalid v4.public key: "@ + cause@,
        error matches CompileError::Local { cause } ==> r@ == "invalid v4.local key: "@ + cause@,
        error matches CompileError::Key { error: KeyError::NotHex { .. } } ==> r@
            == "key hex is not valid hex"@,
        error matches CompileError::Key { error: KeyError::Length { got } } ==> r@
            == "key must decode to 32 bytes, got "@ + decimal(got as nat),
{
}

/// What the errors of loading a configuration say.
pub proof fn law_load_error_message(error: LoadError, r: String)
    requires
        call_ensures(LoadError::message, (&error,), r),
    ensures
        error matches LoadError::Config { config: ConfigError::NoIssuers } ==> r@
            == "identity.paseto: `issuers` must be non-empty"@,
        error matches LoadError::Config { config: ConfigError::Issuer { index, .. } } ==> r@
            == "identity.paseto: issuers["@ + decimal(index as nat) + "]"@,
        error matches LoadError::Config { config: ConfigError::DuplicateIssuer { issuer } } ==> r@
            == "identity.paseto: duplicate issuer '"@ + issuer@ + "'"@,
        error matches LoadError::Config { config: ConfigError::TrustLevel { got } } ==> r@
            == "resolution.trust_level must be `verified` or `header_asserted`, got '"@ + got@
            + "'"@,
{
}

// --- defaults ----------------------------------------------------------------

/// By default a token is taken from the authorization header.
pub proof fn law_default_token_source(r: TokenSourceConfig)
    requires
        call_ensures(<TokenSourceConfig as Default>::default, (), r),
    ensures
        r.kind is AuthorizationBearer,
        r.header_name is None,
        r.header_prefix is None,
{
}

/// By default the subject is the claim `sub`, the scopes are those of `scope` and `scp`, and
/// nothing else is mapped.
pub proof fn law_default_claim_mappings(r: ClaimMappingConfig)
    requires
        call_ensures(<ClaimMappingConfig as Default>::default, (), r),
    ensures
        r.subject_claim@ == "sub"@,
        r.role_claim_paths@.len() == 0,
        r.group_claim_paths@.len() == 0,
        r.scope_claim_paths.deep_view() == seq!["scope"@, "scp"@],
        r.attribute_claim_mappings.ordered().len() == 0,
{
}

/// By default an identity is labelled `verified` and `paseto`.
pub proof fn law_default_resolution(r: ResolutionConfig)
    requires
        call_ensures(<ResolutionConfig as Default>::default, (), r),
    ensures
        r.trust_level@ == "verified"@,
        r.auth_provider_label@ == "paseto"@,
{
}

/// The defaults of the single fields.
pub proof fn law_default_fields(
    kind: TokenSourceKind,
    subject: String,
    scopes: Vec<String>,
    level: String,
    label: String,
)
    requires
        call_ensures(default_token_source_kind, (), kind),
        call_ensures(default_subject_claim, (), subject),
        call_ensures(default_scope_claim_paths, (), scopes),
        call_ensures(default_trust_level, (), level),
        call_ensures(default_auth_provider_label, (), label),
    ensures
        kind is AuthorizationBearer,
        subject@ == "sub"@,
        scopes.deep_view() == seq!["scope"@, "scp"@],
        level@ == "verified"@,
        label@ == "paseto"@,
{
}

}
