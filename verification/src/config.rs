//! Operator-supplied configuration, and the rules that it is held to.

use hex::FromHexError;
use vstd::hash_set::StringHashSet;
use vstd::prelude::*;
use vstd::utf8::encode_utf8;

use crate::error::{ConfigError, HexError, IssuerError, KeyError};
use crate::string_map::StringMap;
use crate::text::{blank, is_blank, same, trim, trimmed};

verus! {

broadcast use vstd::string::group_string_axioms;

/// Length in bytes of a v4 key (Ed25519 public key or XChaCha20 symmetric key).
pub const V4_KEY_BYTES: usize = 32;

// --- key material ------------------------------------------------------------

/// Whether a character is a hexadecimal digit.
pub open spec fn is_hex_digit(c: char) -> bool {
    '0' <= c <= '9' || 'a' <= c <= 'f' || 'A' <= c <= 'F'
}

/// The number that a hexadecimal digit stands for.
pub open spec fn hex_value(c: char) -> int {
    if '0' <= c <= '9' {
        c as int - '0' as int
    } else if 'a' <= c <= 'f' {
        c as int - 'a' as int + 10
    } else {
        c as int - 'A' as int + 10
    }
}

/// The bytes that a hexadecimal text spells, two digits each, the high one first.
pub open spec fn hex_bytes(text: Seq<char>) -> Option<Seq<u8>> {
    if text.len() % 2 == 0 && forall|i: int|
        0 <= i < text.len() ==> is_hex_digit(#[trigger] text[i]) {
        Some(
            Seq::new(
                text.len() / 2,
                |i: int| (16 * hex_value(text[2 * i]) + hex_value(text[2 * i + 1])) as u8,
            ),
        )
    } else {
        None
    }
}

/// Whether a byte is a hexadecimal digit in ASCII.
pub open spec fn is_hex_byte(b: u8) -> bool {
    0x30 <= b <= 0x39 || 0x41 <= b <= 0x46 || 0x61 <= b <= 0x66
}

/// Whether that is why a text is not hexadecimal: an odd number of bytes counts first, and
/// then the first byte that is no digit.
pub open spec fn hex_fault(text: Seq<char>, error: HexError) -> bool {
    let bytes = encode_utf8(text);
    match error {
        HexError::OddLength => bytes.len() % 2 != 0,
        HexError::InvalidHexCharacter { c, index } => {
            &&& bytes.len() % 2 == 0
            &&& index < bytes.len()
            &&& !is_hex_byte(bytes[index as int])
            &&& c as u32 == bytes[index as int]
            &&& forall|i: int| 0 <= i < index ==> is_hex_byte(#[trigger] bytes[i])
        },
        HexError::InvalidStringLength => false,
    }
}

/// `hex::FromHexError`, the reason for which a text was not read as hexadecimal.
#[verifier::external_type_specification]
#[verifier::external_body]
pub struct ExFromHexError(FromHexError);

/// What a `FromHexError` says.
pub uninterp spec fn hex_error(error: FromHexError) -> HexError;

/// `hex::decode`: reads a text of an even number of hexadecimal digits, upper or
/// lower case, as bytes, and refuses every other text for its first fault.
#[verifier::external_body]
fn hex_decode(text: &str) -> (r: Result<Vec<u8>, FromHexError>)
    ensures
        hex_bytes(text@) == match r {
            Ok(bytes) => Some(bytes@),
            Err(_) => None,
        },
        r matches Err(error) ==> hex_fault(text@, hex_error(error)),
{
    hex::decode(text)
}

/// Tells the variants of `hex::FromHexError` apart.
#[verifier::external_body]
fn hex_error_of(error: FromHexError) -> (r: HexError)
    ensures
        r == hex_error(error),
{
    match error {
        FromHexError::InvalidHexCharacter { c, index } => {
            HexError::InvalidHexCharacter { c, index }
        },
        FromHexError::OddLength => HexError::OddLength,
        FromHexError::InvalidStringLength => HexError::InvalidStringLength,
    }
}

/// The verification key of an issuer. Its kind selects the PASETO purpose.
#[derive(Debug, Clone)]
pub enum KeyMaterialConfig {
    /// v4.public verify key: a 32-byte Ed25519 public key, hex-encoded.
    PublicHex { hex: String },
    /// v4.local symmetric key: 32 bytes, hex-encoded.
    LocalHex { hex: String },
}

/// The text of key material.
pub open spec fn key_text(key: KeyMaterialConfig) -> Seq<char> {
    match key {
        KeyMaterialConfig::PublicHex { hex } => hex@,
        KeyMaterialConfig::LocalHex { hex } => hex@,
    }
}

/// The bytes that a key spells, if its text without the white space around it is
/// hexadecimal.
pub open spec fn spelled_bytes(key: KeyMaterialConfig) -> Option<Seq<u8>> {
    hex_bytes(trimmed(key_text(key)))
}

/// Whether key material spells a v4 key.
pub open spec fn valid_key(key: KeyMaterialConfig) -> bool {
    spelled_bytes(key) matches Some(bytes) && bytes.len() == V4_KEY_BYTES
}

/// Whether that is what is wrong with key material.
pub open spec fn key_fault(key: KeyMaterialConfig, error: KeyError) -> bool {
    match error {
        KeyError::NotHex { cause } => spelled_bytes(key) is None && hex_fault(
            trimmed(key_text(key)),
            cause,
        ),
        KeyError::Length { got } => spelled_bytes(key) matches Some(bytes) && bytes.len()
            != V4_KEY_BYTES && got == bytes.len(),
    }
}

impl KeyMaterialConfig {
    /// Decodes the configured key to its raw bytes (exactly 32).
    pub fn key_bytes(&self) -> (r: Result<Vec<u8>, KeyError>)
        ensures
            match r {
                Ok(bytes) => valid_key(*self) && spelled_bytes(*self) == Some(bytes@),
                Err(error) => key_fault(*self, error),
            },
    {
        let h = match self {
            KeyMaterialConfig::PublicHex { hex } => hex,
            KeyMaterialConfig::LocalHex { hex } => hex,
        };
        match hex_decode(trim(h.as_str())) {
            Ok(bytes) => {
                if bytes.len() != V4_KEY_BYTES {
                    Err(KeyError::Length { got: bytes.len() })
                } else {
                    Ok(bytes)
                }
            },
            Err(e) => Err(KeyError::NotHex { cause: hex_error_of(e) }),
        }
    }

    /// Checks that the key material spells a v4 key.
    pub fn validate(&self) -> (r: Result<(), KeyError>)
        ensures
            r is Ok <==> valid_key(*self),
            r matches Err(error) ==> key_fault(*self, error),
    {
        match self.key_bytes() {
            Ok(_) => Ok(()),
            Err(error) => Err(error),
        }
    }
}

// --- token source ------------------------------------------------------------

/// Where a token is taken from.
#[derive(Debug, Clone, PartialEq, Eq, Structural)]
pub enum TokenSourceKind {
    AuthorizationBearer,
    CustomHeader,
}

/// The default of [`TokenSourceConfig::kind`].
pub fn default_token_source_kind() -> (r: TokenSourceKind)
    ensures
        r == TokenSourceKind::AuthorizationBearer,
{
    TokenSourceKind::AuthorizationBearer
}

/// The header that carries the token, and what stands before the token in it.
#[derive(Debug, Clone)]
pub struct TokenSourceConfig {
    pub kind: TokenSourceKind,
    pub header_name: Option<String>,
    pub header_prefix: Option<String>,
}

impl Default for TokenSourceConfig {
    fn default() -> (r: Self)
        ensures
            r.kind == TokenSourceKind::AuthorizationBearer,
            r.header_name is None,
            r.header_prefix is None,
    {
        TokenSourceConfig {
            kind: default_token_source_kind(),
            header_name: None,
            header_prefix: None,
        }
    }
}

/// The name of the header that carries the token. A configured name counts for a
/// custom header only.
pub open spec fn header_name(source: TokenSourceConfig) -> Seq<char> {
    match (source.kind, source.header_name) {
        (TokenSourceKind::CustomHeader, Some(name)) => name@,
        _ => "authorization"@,
    }
}

/// What stands before the token in the header. A configured prefix counts always.
pub open spec fn header_prefix(source: TokenSourceConfig) -> Seq<char> {
    match (source.kind, source.header_prefix) {
        (_, Some(prefix)) => prefix@,
        (TokenSourceKind::AuthorizationBearer, None) => "Bearer "@,
        (TokenSourceKind::CustomHeader, None) => ""@,
    }
}

impl TokenSourceConfig {
    /// The name of the header that carries the token.
    pub fn effective_header_name(&self) -> (r: &str)
        ensures
            r@ == header_name(*self),
    {
        match self.kind {
            TokenSourceKind::AuthorizationBearer => "authorization",
            TokenSourceKind::CustomHeader => match &self.header_name {
                Some(name) => name.as_str(),
                None => "authorization",
            },
        }
    }

    /// What stands before the token in the header.
    pub fn effective_header_prefix(&self) -> (r: &str)
        ensures
            r@ == header_prefix(*self),
    {
        if let Some(prefix) = &self.header_prefix {
            return prefix.as_str();
        }
        match self.kind {
            TokenSourceKind::AuthorizationBearer => "Bearer ",
            TokenSourceKind::CustomHeader => "",
        }
    }
}

// --- claim mappings ----------------------------------------------------------

/// How claims map to the resolved identity.
#[derive(Debug, Clone)]
pub struct ClaimMappingConfig {
    /// The claim that names the subject.
    pub subject_claim: String,
    /// Dotted paths to the groups.
    pub group_claim_paths: Vec<String>,
    /// Dotted paths to the roles.
    pub role_claim_paths: Vec<String>,
    /// Dotted paths to the scopes.
    pub scope_claim_paths: Vec<String>,
    /// Which claim becomes which attribute.
    pub attribute_claim_mappings: StringMap,
}

/// The default of [`ClaimMappingConfig::subject_claim`].
pub fn default_subject_claim() -> (r: String)
    ensures
        r@ == "sub"@,
{
    "sub".to_owned()
}

/// The default of [`ClaimMappingConfig::scope_claim_paths`].
pub fn default_scope_claim_paths() -> (r: Vec<String>)
    ensures
        r.deep_view() == seq!["scope"@, "scp"@],
{
    let r = vec!["scope".to_owned(), "scp".to_owned()];
    assert(r.deep_view() =~= seq!["scope"@, "scp"@]);
    r
}

impl Default for ClaimMappingConfig {
    fn default() -> (r: Self)
        ensures
            r.subject_claim@ == "sub"@,
            r.group_claim_paths@.len() == 0,
            r.role_claim_paths@.len() == 0,
            r.scope_claim_paths.deep_view() == seq!["scope"@, "scp"@],
            r.attribute_claim_mappings.ordered().len() == 0,
    {
        ClaimMappingConfig {
            subject_claim: default_subject_claim(),
            group_claim_paths: vec![],
            role_claim_paths: vec![],
            scope_claim_paths: default_scope_claim_paths(),
            attribute_claim_mappings: StringMap::new(),
        }
    }
}

// --- issuers -----------------------------------------------------------------

/// The verification profile of one issuer.
#[derive(Debug, Clone)]
pub struct IssuerConfig {
    /// Exact `iss` claim to match.
    pub issuer: String,
    /// Accepted `aud` claims.
    pub audiences: Vec<String>,
    /// Opt out of audience validation. Empty `audiences` without this is refused: a
    /// token minted for another service would verify.
    pub allow_any_audience: bool,
    /// Verification key.
    pub key: KeyMaterialConfig,
    /// How claims map to the resolved identity.
    pub claim_mappings: ClaimMappingConfig,
}

/// Whether an issuer profile can be loaded.
pub open spec fn valid_issuer(profile: IssuerConfig) -> bool {
    &&& !blank(profile.issuer@)
    &&& profile.audiences@.len() > 0 || profile.allow_any_audience
    &&& valid_key(profile.key)
}

/// Whether that is what is wrong with an issuer profile, what is checked first
/// counting first.
pub open spec fn issuer_fault(profile: IssuerConfig, error: IssuerError) -> bool {
    match error {
        IssuerError::EmptyIssuer => blank(profile.issuer@),
        IssuerError::NoAudience => {
            &&& !blank(profile.issuer@)
            &&& profile.audiences@.len() == 0 && !profile.allow_any_audience
        },
        IssuerError::Key { error } => {
            &&& !blank(profile.issuer@)
            &&& profile.audiences@.len() > 0 || profile.allow_any_audience
            &&& key_fault(profile.key, error)
        },
    }
}

impl IssuerConfig {
    /// Checks that the issuer profile can be loaded.
    pub fn validate(&self) -> (r: Result<(), IssuerError>)
        ensures
            r is Ok <==> valid_issuer(*self),
            r matches Err(error) ==> issuer_fault(*self, error),
    {
        if is_blank(self.issuer.as_str()) {
            return Err(IssuerError::EmptyIssuer);
        }
        if self.audiences.len() == 0 && !self.allow_any_audience {
            return Err(IssuerError::NoAudience);
        }
        match self.key.validate() {
            Ok(()) => Ok(()),
            Err(error) => Err(IssuerError::Key { error }),
        }
    }
}

// --- resolution --------------------------------------------------------------

/// What a resolved identity is labelled with.
#[derive(Debug, Clone)]
pub struct ResolutionConfig {
    pub trust_level: String,
    pub auth_provider_label: String,
}

/// The default of [`ResolutionConfig::trust_level`].
pub fn default_trust_level() -> (r: String)
    ensures
        r@ == "verified"@,
{
    "verified".to_owned()
}

/// The default of [`ResolutionConfig::auth_provider_label`].
pub fn default_auth_provider_label() -> (r: String)
    ensures
        r@ == "paseto"@,
{
    "paseto".to_owned()
}

impl Default for ResolutionConfig {
    fn default() -> (r: Self)
        ensures
            r.trust_level@ == "verified"@,
            r.auth_provider_label@ == "paseto"@,
    {
        ResolutionConfig {
            trust_level: default_trust_level(),
            auth_provider_label: default_auth_provider_label(),
        }
    }
}

/// Whether a trust level exists.
pub open spec fn valid_trust_level(level: Seq<char>) -> bool {
    level == "verified"@ || level == "header_asserted"@
}

impl ResolutionConfig {
    /// Checks that the trust level exists.
    pub fn validate(&self) -> (r: Result<(), ConfigError>)
        ensures
            r is Ok <==> valid_trust_level(self.trust_level@),
            r matches Err(error) ==> (error matches ConfigError::TrustLevel { got } && got@
                == self.trust_level@),
    {
        if same(self.trust_level.as_str(), "verified") || same(
            self.trust_level.as_str(),
            "header_asserted",
        ) {
            Ok(())
        } else {
            Err(ConfigError::TrustLevel { got: self.trust_level.clone() })
        }
    }
}

// --- the whole ---------------------------------------------------------------

/// The configuration of the identity resolver.
#[derive(Debug, Clone)]
pub struct PasetoConfig {
    pub token_source: TokenSourceConfig,
    pub issuers: Vec<IssuerConfig>,
    pub resolution: ResolutionConfig,
}

/// Whether the issuer at `i` occurs before.
pub open spec fn repeated(issuers: Seq<IssuerConfig>, i: int) -> bool {
    exists|j: int| 0 <= j < i && (#[trigger] issuers[j]).issuer@ == issuers[i].issuer@
}

/// Whether the issuer profile at `i` can be loaded beside those before it.
pub open spec fn sound_at(issuers: Seq<IssuerConfig>, i: int) -> bool {
    valid_issuer(issuers[i]) && !repeated(issuers, i)
}

/// Whether the first `n` issuer profiles can be loaded side by side.
pub open spec fn sound_up_to(issuers: Seq<IssuerConfig>, n: int) -> bool {
    forall|i: int| 0 <= i < n ==> #[trigger] sound_at(issuers, i)
}

/// Whether a configuration can be loaded.
pub open spec fn valid_config(config: PasetoConfig) -> bool {
    &&& config.issuers@.len() > 0
    &&& sound_up_to(config.issuers@, config.issuers@.len() as int)
    &&& valid_trust_level(config.resolution.trust_level@)
}

/// Whether the issuer at `i` is the first fault, and is so because it occurs before.
pub open spec fn first_repeated(issuers: Seq<IssuerConfig>, i: int) -> bool {
    &&& 0 <= i < issuers.len()
    &&& sound_up_to(issuers, i)
    &&& valid_issuer(issuers[i])
    &&& repeated(issuers, i)
}

/// Whether that is what is wrong with a configuration, the first fault counting.
pub open spec fn config_fault(config: PasetoConfig, error: ConfigError) -> bool {
    let issuers = config.issuers@;
    match error {
        ConfigError::NoIssuers => issuers.len() == 0,
        ConfigError::Issuer { index, error } => {
            &&& index < issuers.len()
            &&& sound_up_to(issuers, index as int)
            &&& issuer_fault(issuers[index as int], error)
        },
        ConfigError::DuplicateIssuer { issuer } => exists|i: int| #[trigger]
            first_repeated(issuers, i) && issuer@ == issuers[i].issuer@,
        ConfigError::TrustLevel { got } => {
            &&& issuers.len() > 0
            &&& sound_up_to(issuers, issuers.len() as int)
            &&& !valid_trust_level(config.resolution.trust_level@)
            &&& got@ == config.resolution.trust_level@
        },
    }
}

impl PasetoConfig {
    /// Checks that the configuration can be loaded: some issuer, every profile in
    /// order, no issuer twice, a trust level that exists.
    pub fn validate(&self) -> (r: Result<(), ConfigError>)
        ensures
            r is Ok <==> valid_config(*self),
            r matches Err(error) ==> config_fault(*self, error),
    {
        if self.issuers.len() == 0 {
            return Err(ConfigError::NoIssuers);
        }
        let mut seen = StringHashSet::new();
        let mut i: usize = 0;
        while i < self.issuers.len()
            invariant
                i <= self.issuers.len(),
                self.issuers.len() > 0,
                sound_up_to(self.issuers@, i as int),
                forall|name: Seq<char>| #[trigger]
                    seen@.contains(name) <==> exists|j: int|
                        0 <= j < i && (#[trigger] self.issuers@[j]).issuer@ == name,
            decreases self.issuers.len() - i,
        {
            let profile = &self.issuers[i];
            if let Err(error) = profile.validate() {
                assert(!sound_at(self.issuers@, i as int));
                return Err(ConfigError::Issuer { index: i, error });
            }
            let ghost before = seen@;
            if !seen.insert(profile.issuer.clone()) {
                assert(first_repeated(self.issuers@, i as int));
                assert(!sound_at(self.issuers@, i as int));
                return Err(ConfigError::DuplicateIssuer { issuer: profile.issuer.clone() });
            }
            assert(sound_at(self.issuers@, i as int));
            assert forall|name: Seq<char>| #[trigger] seen@.contains(name) <==> exists|j: int|
                0 <= j < i + 1 && (#[trigger] self.issuers@[j]).issuer@ == name by {
                if seen@.contains(name) {
                    if before.contains(name) {
                        let j = choose|j: int|
                            0 <= j < i && (#[trigger] self.issuers@[j]).issuer@ == name;
                        assert(self.issuers@[j].issuer@ == name);
                    } else {
                        assert(self.issuers@[i as int].issuer@ == name);
                    }
                }
            }
            i += 1;
        }
        self.resolution.validate()
    }
}

}
