use identity_paseto::config::{
    ClaimMappingConfig, IssuerConfig, KeyMaterialConfig, PasetoConfig, ResolutionConfig,
    TokenSourceConfig, TokenSourceKind,
};
use identity_paseto::error::{
    CompileError, ConfigError, HexError, IssuerError, KeyError, LoadError,
};
use identity_paseto::issuer::{compile_issuer, CompiledKey};
use identity_paseto::plugin::PasetoIdentityPlugin;

fn pub_issuer() -> IssuerConfig {
    IssuerConfig {
        issuer: "https://idp.example".to_owned(),
        audiences: vec!["mcpg".to_owned()],
        allow_any_audience: false,
        key: KeyMaterialConfig::PublicHex { hex: "0".repeat(64) },
        claim_mappings: ClaimMappingConfig::default(),
    }
}

fn config(issuers: Vec<IssuerConfig>) -> PasetoConfig {
    PasetoConfig {
        token_source: TokenSourceConfig::default(),
        issuers,
        resolution: ResolutionConfig::default(),
    }
}

#[test]
fn minimal_config_parses() {
    let cfg = config(vec![pub_issuer()]);
    cfg.validate().unwrap();
    assert_eq!(cfg.issuers.len(), 1);
    assert_eq!(cfg.resolution.auth_provider_label, "paseto");
}

#[test]
fn no_issuers_rejected() {
    let error = config(vec![]).validate().unwrap_err();
    assert!(matches!(error, ConfigError::NoIssuers));
    assert_eq!(error.message(), "identity.paseto: `issuers` must be non-empty");
}

#[test]
fn duplicate_issuer_rejected() {
    let error = config(vec![pub_issuer(), pub_issuer()]).validate().unwrap_err();
    let err = error.message();
    assert!(err.contains("duplicate issuer"), "{err}");
    assert_eq!(err, "identity.paseto: duplicate issuer 'https://idp.example'");
}

#[test]
fn bad_key_length_rejected() {
    let mut iss = pub_issuer();
    iss.key = KeyMaterialConfig::PublicHex { hex: "abcd".to_owned() };
    assert!(config(vec![iss.clone()]).validate().is_err());
    let error = iss.validate().unwrap_err();
    assert_eq!(error, IssuerError::Key { error: KeyError::Length { got: 2 } });
    assert_eq!(error.message(), "key must decode to 32 bytes, got 2");
}

#[test]
fn non_hex_key_rejected() {
    let mut iss = pub_issuer();
    iss.key = KeyMaterialConfig::LocalHex { hex: "z".repeat(64) };
    assert!(config(vec![iss.clone()]).validate().is_err());
    let error = iss.validate().unwrap_err();
    let cause = HexError::InvalidHexCharacter { c: 'z', index: 0 };
    assert_eq!(error, IssuerError::Key { error: KeyError::NotHex { cause } });
    assert_eq!(error.message(), "key hex is not valid hex");
}

#[test]
fn empty_audiences_needs_opt_in() {
    let mut iss = pub_issuer();
    iss.audiences = vec![];
    assert!(config(vec![iss.clone()]).validate().is_err());
    assert_eq!(iss.validate().unwrap_err(), IssuerError::NoAudience);
    assert!(iss.validate().unwrap_err().message().starts_with("audiences is empty \u{2014} refusing"));
    iss.allow_any_audience = true;
    config(vec![iss]).validate().unwrap();
}

#[test]
fn bad_trust_level_rejected() {
    let mut cfg = config(vec![pub_issuer()]);
    cfg.resolution.trust_level = "root".to_owned();
    let error = cfg.validate().unwrap_err();
    assert_eq!(
        error.message(),
        "resolution.trust_level must be `verified` or `header_asserted`, got 'root'"
    );
}

#[test]
fn blank_issuer_rejected() {
    let mut iss = pub_issuer();
    iss.issuer = " \u{a0}\n".to_owned();
    assert_eq!(iss.validate().unwrap_err(), IssuerError::EmptyIssuer);
    assert_eq!(iss.validate().unwrap_err().message(), "issuer must not be empty");
    let error = config(vec![pub_issuer(), iss]).validate().unwrap_err();
    assert!(matches!(
        error,
        ConfigError::Issuer { index: 1, error: IssuerError::EmptyIssuer }
    ));
    assert_eq!(error.message(), "identity.paseto: issuers[1]");
}

#[test]
fn first_fault_counts() {
    let mut bad = pub_issuer();
    bad.audiences = vec![];
    let mut cfg = config(vec![pub_issuer(), bad, pub_issuer()]);
    cfg.resolution.trust_level = "root".to_owned();
    assert_eq!(cfg.validate().unwrap_err().message(), "identity.paseto: issuers[1]");
}

#[test]
fn key_bytes_reads_either_case_and_trims() {
    let key = KeyMaterialConfig::LocalHex { hex: format!("  {}\n", "0aF9".repeat(16)) };
    let bytes = key.key_bytes().unwrap();
    assert_eq!(bytes.len(), 32);
    assert_eq!(&bytes[..4], &[0x0a, 0xf9, 0x0a, 0xf9]);
}

#[test]
fn key_bytes_refuses_what_is_not_hex() {
    let bad = |c: char, index: usize| HexError::InvalidHexCharacter { c, index };
    for (hex, cause) in [
        ("abc", HexError::OddLength),
        ("zzz", HexError::OddLength),
        ("0x00", bad('x', 1)),
        ("\u{e9}\u{e9}", bad('\u{c3}', 0)),
        ("00 1g1", bad(' ', 2)),
        ("g0", bad('g', 0)),
        (" 0:\n", bad(':', 1)),
    ] {
        let key = KeyMaterialConfig::PublicHex { hex: hex.to_owned() };
        assert_eq!(key.key_bytes().unwrap_err(), KeyError::NotHex { cause }, "{hex}");
    }
    let key = KeyMaterialConfig::PublicHex { hex: String::new() };
    assert_eq!(key.key_bytes().unwrap_err(), KeyError::Length { got: 0 });
}

#[test]
fn effective_headers() {
    let mut source = TokenSourceConfig::default();
    assert_eq!(source.kind, TokenSourceKind::AuthorizationBearer);
    assert_eq!(source.effective_header_name(), "authorization");
    assert_eq!(source.effective_header_prefix(), "Bearer ");
    source.header_name = Some("x-token".to_owned());
    source.header_prefix = Some("Token ".to_owned());
    assert_eq!(source.effective_header_name(), "authorization");
    assert_eq!(source.effective_header_prefix(), "Token ");
    source.kind = TokenSourceKind::CustomHeader;
    assert_eq!(source.effective_header_name(), "x-token");
    assert_eq!(source.effective_header_prefix(), "Token ");
    source.header_name = None;
    source.header_prefix = None;
    assert_eq!(source.effective_header_name(), "authorization");
    assert_eq!(source.effective_header_prefix(), "");
}

#[test]
fn defaults() {
    let mappings = ClaimMappingConfig::default();
    assert_eq!(mappings.subject_claim, "sub");
    assert_eq!(mappings.scope_claim_paths, vec!["scope", "scp"]);
    assert!(mappings.group_claim_paths.is_empty());
    assert!(mappings.role_claim_paths.is_empty());
    assert_eq!(mappings.attribute_claim_mappings.len(), 0);
    assert_eq!(ResolutionConfig::default().trust_level, "verified");
}

#[test]
fn keys_are_loaded_for_their_purpose() {
    let mut iss = pub_issuer();
    iss.key = KeyMaterialConfig::PublicHex { hex: "0aF9".repeat(16) };
    match compile_issuer(iss.clone()).ok().unwrap().key {
        CompiledKey::Public(key) => assert_eq!(&key.as_bytes()[..2], &[0x0a, 0xf9]),
        CompiledKey::Local(_) => panic!("expected a public key"),
    }
    iss.key = KeyMaterialConfig::LocalHex { hex: "1bE8".repeat(16) };
    match compile_issuer(iss.clone()).ok().unwrap().key {
        CompiledKey::Local(key) => assert_eq!(&key.as_bytes()[..2], &[0x1b, 0xe8]),
        CompiledKey::Public(_) => panic!("expected a symmetric key"),
    }
    iss.key = KeyMaterialConfig::LocalHex { hex: "1b".to_owned() };
    let error = compile_issuer(iss).err().unwrap();
    assert!(matches!(error, CompileError::Key { error: KeyError::Length { got: 1 } }));
    assert_eq!(error.message(), "key must decode to 32 bytes, got 1");
}

#[test]
fn compile_error_messages() {
    let public = CompileError::Public { cause: "Key".to_owned() };
    assert_eq!(public.message(), "invalid v4.public key: Key");
    let local = CompileError::Local { cause: "Key".to_owned() };
    assert_eq!(local.message(), "invalid v4.local key: Key");
    assert_eq!(LoadError::Compile { compile: local }.message(), "invalid v4.local key: Key");
}

#[test]
fn loading_fails_closed() {
    let error = PasetoIdentityPlugin::from_config(config(vec![])).err().unwrap();
    assert!(matches!(&error, LoadError::Config { config: ConfigError::NoIssuers }));
    assert_eq!(error.message(), "identity.paseto: `issuers` must be non-empty");
    let plugin = PasetoIdentityPlugin::from_config(config(vec![pub_issuer()])).ok().unwrap();
    assert_eq!(plugin.inner.issuers.len(), 1);
    assert_eq!(plugin.inner.issuers[0].issuer, "https://idp.example");
    assert_eq!(plugin.inner.issuers[0].audiences, vec!["mcpg"]);
}

#[test]
fn spelling_of_a_key_does_not_matter() {
    let plain = KeyMaterialConfig::PublicHex { hex: "0af9".repeat(16) };
    let other = KeyMaterialConfig::LocalHex { hex: format!("\n\u{3000}{}\t ", "0Af9".repeat(16)) };
    assert_eq!(plain.key_bytes().unwrap(), other.key_bytes().unwrap());
    let bad = KeyMaterialConfig::LocalHex { hex: format!(" {} ", "0Ag9".repeat(16)) };
    let cause = HexError::InvalidHexCharacter { c: 'g', index: 2 };
    assert_eq!(bad.key_bytes().unwrap_err(), KeyError::NotHex { cause });
}

#[test]
fn order_of_issuers_does_not_matter() {
    let mut second = pub_issuer();
    second.issuer = "https://other.example".to_owned();
    let mut third = pub_issuer();
    third.issuer = "https://third.example".to_owned();
    assert!(config(vec![pub_issuer(), second.clone(), third.clone()]).validate().is_ok());
    assert!(config(vec![third.clone(), pub_issuer(), second.clone()]).validate().is_ok());
    third.audiences = vec![];
    assert!(config(vec![pub_issuer(), second.clone(), third.clone()]).validate().is_err());
    assert!(config(vec![third, second, pub_issuer()]).validate().is_err());
}
