use identity_paseto::config::{
    ClaimMappingConfig, IssuerConfig, KeyMaterialConfig, PasetoConfig, ResolutionConfig,
    TokenSourceConfig, TokenSourceKind,
};
use identity_paseto::identity::IdentityResolution;
use identity_paseto::issuer::compile_issuer;
use identity_paseto::plugin::PasetoIdentityPlugin;
use identity_paseto::string_map::StringMap;
use identity_paseto::verify::{check_of, rules_for, TokenCheck};

use pasetors::claims::Claims;
use pasetors::keys::{AsymmetricKeyPair, Generate, SymmetricKey};
use pasetors::token::{Public, UntrustedToken};
use pasetors::version4::V4;
use serde_json::Value;

const ISS: &str = "https://idp.example";

fn value(text: &str) -> Value {
    serde_json::from_str(text).unwrap()
}

fn strings(items: &[&str]) -> Vec<String> {
    items.iter().map(|s| s.to_string()).collect()
}

fn public_key(kp: &AsymmetricKeyPair<V4>) -> KeyMaterialConfig {
    KeyMaterialConfig::PublicHex { hex: hex::encode(kp.public.as_bytes()) }
}

fn local_key(sk: &SymmetricKey<V4>) -> KeyMaterialConfig {
    KeyMaterialConfig::LocalHex { hex: hex::encode(sk.as_bytes()) }
}

fn profile(issuer: &str, audiences: &[&str], key: KeyMaterialConfig) -> IssuerConfig {
    IssuerConfig {
        issuer: issuer.to_owned(),
        audiences: strings(audiences),
        allow_any_audience: false,
        key,
        claim_mappings: ClaimMappingConfig::default(),
    }
}

fn config(issuers: Vec<IssuerConfig>) -> PasetoConfig {
    PasetoConfig {
        token_source: TokenSourceConfig::default(),
        issuers,
        resolution: ResolutionConfig::default(),
    }
}

fn build(config: PasetoConfig) -> PasetoIdentityPlugin {
    PasetoIdentityPlugin::from_config(config).unwrap()
}

fn request(p: &PasetoIdentityPlugin, headers: &[(String, String)]) -> IdentityResolution {
    assert!(p.can_resolve(headers));
    p.resolve_identity(headers)
}

fn resolve(p: &PasetoIdentityPlugin, token: &str) -> IdentityResolution {
    let headers = vec![("Authorization".to_owned(), format!("Bearer {token}"))];
    request(p, &headers)
}

/// Claims with a 1-hour future expiry (Claims::new sets iat/nbf/exp).
fn claims(iss: &str, aud: &str, sub: &str) -> Claims {
    let mut c = Claims::new().unwrap();
    c.issuer(iss).unwrap();
    c.audience(aud).unwrap();
    c.subject(sub).unwrap();
    c
}

fn public_plugin(kp: &AsymmetricKeyPair<V4>) -> PasetoIdentityPlugin {
    build(config(vec![profile(ISS, &["mcpg"], public_key(kp))]))
}

fn local_plugin(sk: &SymmetricKey<V4>) -> PasetoIdentityPlugin {
    build(config(vec![profile(ISS, &["mcpg"], local_key(sk))]))
}

fn sign(kp: &AsymmetricKeyPair<V4>, c: &Claims) -> String {
    pasetors::public::sign(&kp.secret, c, None, None).unwrap()
}

fn reason(r: IdentityResolution) -> String {
    match r {
        IdentityResolution::Invalid { reason } => reason,
        other => panic!("expected Invalid, got {other:?}"),
    }
}

#[test]
fn v4_public_valid_resolves() {
    let kp = AsymmetricKeyPair::<V4>::generate().unwrap();
    let p = public_plugin(&kp);
    let token = sign(&kp, &claims(ISS, "mcpg", "alice"));
    match resolve(&p, &token) {
        IdentityResolution::Resolved { identity } => {
            assert_eq!(identity.subject_id.as_deref(), Some("alice"));
            assert_eq!(identity.trust_level, "verified");
            assert_eq!(identity.auth_provider.as_deref(), Some("paseto"));
            assert_eq!(identity.issuer.as_deref(), Some(ISS));
        }
        other => panic!("expected Resolved, got {other:?}"),
    }
}

#[test]
fn v4_local_valid_resolves() {
    let sk = SymmetricKey::<V4>::generate().unwrap();
    let p = local_plugin(&sk);
    let token = pasetors::local::encrypt(&sk, &claims(ISS, "mcpg", "bob"), None, None).unwrap();
    match resolve(&p, &token) {
        IdentityResolution::Resolved { identity } => {
            assert_eq!(identity.subject_id.as_deref(), Some("bob"))
        }
        other => panic!("expected Resolved, got {other:?}"),
    }
}

#[test]
fn wrong_public_key_invalid() {
    let signer = AsymmetricKeyPair::<V4>::generate().unwrap();
    let other = AsymmetricKeyPair::<V4>::generate().unwrap();
    let p = public_plugin(&other); // configured with a DIFFERENT public key
    let token = sign(&signer, &claims(ISS, "mcpg", "alice"));
    assert!(matches!(resolve(&p, &token), IdentityResolution::Invalid { .. }));
    assert_eq!(
        reason(resolve(&p, &token)),
        "token verification failed for issuer 'https://idp.example': TokenValidation"
    );
}

#[test]
fn wrong_local_key_invalid() {
    let p = local_plugin(&SymmetricKey::<V4>::generate().unwrap());
    let sk = SymmetricKey::<V4>::generate().unwrap();
    let token = pasetors::local::encrypt(&sk, &claims(ISS, "mcpg", "bob"), None, None).unwrap();
    assert_eq!(
        reason(resolve(&p, &token)),
        "token verification failed for issuer 'https://idp.example': TokenValidation"
    );
}

#[test]
fn wrong_issuer_invalid() {
    let kp = AsymmetricKeyPair::<V4>::generate().unwrap();
    let p = public_plugin(&kp);
    let token = sign(&kp, &claims("https://evil", "mcpg", "alice"));
    assert!(matches!(resolve(&p, &token), IdentityResolution::Invalid { .. }));
    assert_eq!(
        reason(resolve(&p, &token)),
        "token verification failed for issuer 'https://idp.example': ClaimValidation(Iss)"
    );
}

#[test]
fn wrong_audience_invalid() {
    let kp = AsymmetricKeyPair::<V4>::generate().unwrap();
    let p = public_plugin(&kp);
    let token = sign(&kp, &claims(ISS, "other-svc", "alice"));
    assert!(matches!(resolve(&p, &token), IdentityResolution::Invalid { .. }));
    assert_eq!(
        reason(resolve(&p, &token)),
        "token verification failed for issuer 'https://idp.example': ClaimValidation(Aud)"
    );
}

#[test]
fn multi_audience_membership_allowed() {
    let kp = AsymmetricKeyPair::<V4>::generate().unwrap();
    let p = build(config(vec![profile(ISS, &["svc-a", "svc-b"], public_key(&kp))]));
    let ok = sign(&kp, &claims(ISS, "svc-b", "alice"));
    assert!(matches!(resolve(&p, &ok), IdentityResolution::Resolved { .. }));
    let bad = sign(&kp, &claims(ISS, "svc-c", "alice"));
    assert!(matches!(resolve(&p, &bad), IdentityResolution::Invalid { .. }));
    assert_eq!(
        reason(resolve(&p, &bad)),
        "audience not allowed for issuer 'https://idp.example'"
    );
}

#[test]
fn multi_audience_needs_an_audience() {
    let kp = AsymmetricKeyPair::<V4>::generate().unwrap();
    let p = build(config(vec![profile(ISS, &["svc-a", "svc-b"], public_key(&kp))]));
    let mut c = Claims::new().unwrap();
    c.issuer(ISS).unwrap();
    c.subject("alice").unwrap();
    assert_eq!(
        reason(resolve(&p, &sign(&kp, &c))),
        "audience not allowed for issuer 'https://idp.example'"
    );
}

#[test]
fn any_audience_where_opted_in() {
    let kp = AsymmetricKeyPair::<V4>::generate().unwrap();
    let mut any = profile(ISS, &[], public_key(&kp));
    any.allow_any_audience = true;
    let p = build(config(vec![any]));
    for aud in ["mcpg", "other-svc"] {
        let token = sign(&kp, &claims(ISS, aud, "alice"));
        assert!(matches!(resolve(&p, &token), IdentityResolution::Resolved { .. }));
    }
    let mut c = Claims::new().unwrap();
    c.issuer(ISS).unwrap();
    c.subject("alice").unwrap();
    assert!(matches!(resolve(&p, &sign(&kp, &c)), IdentityResolution::Resolved { .. }));
}

#[test]
fn missing_subject_invalid() {
    let kp = AsymmetricKeyPair::<V4>::generate().unwrap();
    let p = public_plugin(&kp);
    let mut c = Claims::new().unwrap();
    c.issuer(ISS).unwrap();
    c.audience("mcpg").unwrap();
    let token = sign(&kp, &c);
    match resolve(&p, &token) {
        IdentityResolution::Invalid { reason, .. } => {
            assert!(reason.contains("subject"), "{reason}");
            assert_eq!(reason, "missing or empty 'sub' (subject) claim");
        }
        other => panic!("expected Invalid, got {other:?}"),
    }
}

#[test]
fn blank_subject_invalid() {
    let kp = AsymmetricKeyPair::<V4>::generate().unwrap();
    let p = public_plugin(&kp);
    let token = sign(&kp, &claims(ISS, "mcpg", " \u{3000}\t"));
    assert_eq!(reason(resolve(&p, &token)), "missing or empty 'sub' (subject) claim");
}

#[test]
fn subject_is_kept_as_it_is() {
    let kp = AsymmetricKeyPair::<V4>::generate().unwrap();
    let p = public_plugin(&kp);
    match resolve(&p, &sign(&kp, &claims(ISS, "mcpg", " al ice "))) {
        IdentityResolution::Resolved { identity } => {
            assert_eq!(identity.subject_id.as_deref(), Some(" al ice "))
        }
        other => panic!("expected Resolved, got {other:?}"),
    }
}

#[test]
fn expired_token_invalid() {
    let kp = AsymmetricKeyPair::<V4>::generate().unwrap();
    let p = public_plugin(&kp);
    let mut c = claims(ISS, "mcpg", "alice");
    c.expiration("2000-01-01T00:00:00Z").unwrap();
    let token = sign(&kp, &c);
    assert!(matches!(resolve(&p, &token), IdentityResolution::Invalid { .. }));
    assert_eq!(
        reason(resolve(&p, &token)),
        "token verification failed for issuer 'https://idp.example': ClaimValidation(Exp)"
    );
}

#[test]
fn token_without_expiry_invalid() {
    let kp = AsymmetricKeyPair::<V4>::generate().unwrap();
    let p = public_plugin(&kp);
    let mut c = claims(ISS, "mcpg", "alice");
    c.non_expiring();
    assert_eq!(
        reason(resolve(&p, &sign(&kp, &c))),
        "token verification failed for issuer 'https://idp.example': ClaimValidation(NoExp)"
    );
}

fn rejected(kp: &AsymmetricKeyPair<V4>, c: &Claims) -> String {
    let all = reason(resolve(&public_plugin(kp), &sign(kp, c)));
    let start = "token verification failed for issuer 'https://idp.example': ";
    all.strip_prefix(start).unwrap().to_owned()
}

#[test]
fn refusals_say_what_stood_against_the_claims() {
    let kp = AsymmetricKeyPair::<V4>::generate().unwrap();
    let good = claims(ISS, "mcpg", "alice");
    for (name, error) in [
        ("nbf", "ClaimValidation(NoNbf)"),
        ("iat", "ClaimValidation(NoIat)"),
        ("exp", "ClaimValidation(NoExp)"),
        ("iss", "ClaimValidation(NoIss)"),
        ("aud", "ClaimValidation(NoAud)"),
    ] {
        let mut c = good.clone();
        c.remove_claim(name);
        assert_eq!(rejected(&kp, &c), error);
    }
}

#[test]
fn the_first_fault_is_the_one_reported() {
    let kp = AsymmetricKeyPair::<V4>::generate().unwrap();
    let mut c = claims("https://evil", "other-svc", "alice");
    assert_eq!(rejected(&kp, &c), "ClaimValidation(Iss)");
    c.remove_claim("exp");
    assert_eq!(rejected(&kp, &c), "ClaimValidation(NoExp)");
    c.issued_at("2999-01-01T00:00:00Z").unwrap();
    assert_eq!(rejected(&kp, &c), "ClaimValidation(Iat)");
    c.remove_claim("nbf");
    assert_eq!(rejected(&kp, &c), "ClaimValidation(NoNbf)");
}

#[test]
fn the_clock_alone_refuses_claims_that_are_in_order() {
    let kp = AsymmetricKeyPair::<V4>::generate().unwrap();
    let mut c = claims(ISS, "mcpg", "alice");
    c.not_before("2999-01-01T00:00:00Z").unwrap();
    assert_eq!(rejected(&kp, &c), "ClaimValidation(Nbf)");
    let mut c = claims(ISS, "mcpg", "alice");
    c.issued_at("2999-01-01T00:00:00Z").unwrap();
    assert_eq!(rejected(&kp, &c), "ClaimValidation(Iat)");
    let mut c = claims(ISS, "mcpg", "alice");
    c.expiration("2000-01-01T00:00:00Z").unwrap();
    assert_eq!(rejected(&kp, &c), "ClaimValidation(Exp)");
}

#[test]
fn order_and_repeats_of_audiences_do_not_matter() {
    let kp = AsymmetricKeyPair::<V4>::generate().unwrap();
    for audiences in [
        vec!["svc-a", "svc-b"],
        vec!["svc-b", "svc-a"],
        vec!["svc-b", "svc-a", "svc-b"],
    ] {
        let p = build(config(vec![profile(ISS, &audiences, public_key(&kp))]));
        for (aud, accepted) in [("svc-a", true), ("svc-b", true), ("svc-c", false)] {
            let r = resolve(&p, &sign(&kp, &claims(ISS, aud, "alice")));
            assert_eq!(matches!(r, IdentityResolution::Resolved { .. }), accepted);
        }
    }
    for audiences in [vec!["svc-a"], vec!["svc-a", "svc-a"]] {
        let p = build(config(vec![profile(ISS, &audiences, public_key(&kp))]));
        for (aud, accepted) in [("svc-a", true), ("svc-b", false)] {
            let r = resolve(&p, &sign(&kp, &claims(ISS, aud, "alice")));
            assert_eq!(matches!(r, IdentityResolution::Resolved { .. }), accepted);
        }
    }
}

#[test]
fn rules_ask_for_the_issuer_and_a_single_audience() {
    let kp = AsymmetricKeyPair::<V4>::generate().unwrap();
    let one = compile_issuer(profile(ISS, &["mcpg"], public_key(&kp))).ok().unwrap();
    let two = compile_issuer(profile(ISS, &["mcpg", "b"], public_key(&kp))).ok().unwrap();
    let listed = claims(ISS, "mcpg", "alice");
    let unlisted = claims(ISS, "other-svc", "alice");
    let foreign = claims("https://evil", "mcpg", "alice");
    assert!(rules_for(&one).validate_claims(&listed).is_ok());
    assert!(rules_for(&one).validate_claims(&unlisted).is_err());
    assert!(rules_for(&one).validate_claims(&foreign).is_err());
    assert!(rules_for(&two).validate_claims(&listed).is_ok());
    assert!(rules_for(&two).validate_claims(&unlisted).is_ok());
    assert!(rules_for(&two).validate_claims(&foreign).is_err());
}

#[test]
fn checks_read_what_came_of_verification() {
    let kp = AsymmetricKeyPair::<V4>::generate().unwrap();
    let ci = compile_issuer(profile(ISS, &["mcpg"], public_key(&kp))).ok().unwrap();
    let token = sign(&kp, &claims(ISS, "mcpg", "alice"));
    let untrusted = UntrustedToken::<Public, V4>::try_from(token.as_str()).unwrap();
    let trusted =
        pasetors::public::verify(&kp.public, &untrusted, &rules_for(&ci), None, None);
    match check_of(trusted) {
        TokenCheck::Verified { claims } => {
            assert_eq!(claims.get("sub").unwrap().as_str(), Some("alice"));
            assert_eq!(claims.get("iss").unwrap().as_str(), Some(ISS));
        }
        other => panic!("expected Verified, got {other:?}"),
    }
    match check_of(Err(pasetors::errors::Error::TokenValidation)) {
        TokenCheck::Rejected { error } => assert_eq!(error, "TokenValidation"),
        other => panic!("expected Rejected, got {other:?}"),
    }
}

#[test]
fn claim_mapping_projects_roles_groups_scopes_attrs() {
    let kp = AsymmetricKeyPair::<V4>::generate().unwrap();
    let mut mappings = ClaimMappingConfig::default();
    mappings.role_claim_paths = strings(&["realm_access.roles"]);
    mappings.group_claim_paths = strings(&["groups"]);
    mappings.scope_claim_paths = strings(&["scope"]);
    let mut attributes = StringMap::new();
    attributes.insert("tenant".to_owned(), "tenant".to_owned());
    mappings.attribute_claim_mappings = attributes;
    let mut mapped = profile(ISS, &["mcpg"], public_key(&kp));
    mapped.claim_mappings = mappings;
    let p = build(config(vec![mapped]));
    let mut c = claims(ISS, "mcpg", "alice");
    c.add_additional("realm_access", value(r#"{ "roles": ["admin", "dev"] }"#)).unwrap();
    c.add_additional("groups", value(r#"["g1", "g2"]"#)).unwrap();
    c.add_additional("scope", "read write").unwrap();
    c.add_additional("tenant", "acme").unwrap();
    let token = sign(&kp, &c);
    match resolve(&p, &token) {
        IdentityResolution::Resolved { identity } => {
            assert_eq!(identity.roles, vec!["admin", "dev"]);
            assert_eq!(identity.groups, vec!["g1", "g2"]);
            assert_eq!(identity.scopes, vec!["read", "write"]);
            assert_eq!(identity.attributes.get("tenant").unwrap(), "acme");
        }
        other => panic!("expected Resolved, got {other:?}"),
    }
}

#[test]
fn default_scopes_come_from_scope_and_scp() {
    let kp = AsymmetricKeyPair::<V4>::generate().unwrap();
    let p = public_plugin(&kp);
    let mut c = claims(ISS, "mcpg", "alice");
    c.add_additional("scp", value(r#"["admin", 7, null, "audit log"]"#)).unwrap();
    c.add_additional("scope", "read  write").unwrap();
    match resolve(&p, &sign(&kp, &c)) {
        IdentityResolution::Resolved { identity } => {
            assert_eq!(identity.scopes, vec!["read", "write", "admin", "audit log"]);
            assert!(identity.roles.is_empty());
            assert!(identity.groups.is_empty());
            assert_eq!(identity.attributes.len(), 0);
        }
        other => panic!("expected Resolved, got {other:?}"),
    }
}

#[test]
fn multi_issuer_routes_to_local() {
    let kp = AsymmetricKeyPair::<V4>::generate().unwrap();
    let sk = SymmetricKey::<V4>::generate().unwrap();
    let p = build(config(vec![
        profile("https://a", &["mcpg"], public_key(&kp)),
        profile("https://b", &["mcpg"], local_key(&sk)),
    ]));
    let token =
        pasetors::local::encrypt(&sk, &claims("https://b", "mcpg", "bob"), None, None).unwrap();
    match resolve(&p, &token) {
        IdentityResolution::Resolved { identity } => {
            assert_eq!(identity.issuer.as_deref(), Some("https://b"));
            assert_eq!(identity.subject_id.as_deref(), Some("bob"));
        }
        other => panic!("expected Resolved, got {other:?}"),
    }
}

#[test]
fn first_issuer_accepts_and_last_issuer_explains() {
    let kp = AsymmetricKeyPair::<V4>::generate().unwrap();
    let p = build(config(vec![
        profile("https://a", &["mcpg"], public_key(&kp)),
        profile("https://b", &["mcpg"], public_key(&kp)),
    ]));
    match resolve(&p, &sign(&kp, &claims("https://a", "mcpg", "ann"))) {
        IdentityResolution::Resolved { identity } => {
            assert_eq!(identity.issuer.as_deref(), Some("https://a"))
        }
        other => panic!("expected Resolved, got {other:?}"),
    }
    assert_eq!(
        reason(resolve(&p, &sign(&kp, &claims("https://c", "mcpg", "ann")))),
        "token verification failed for issuer 'https://b': ClaimValidation(Iss)"
    );
}

#[test]
fn local_token_rejected_by_public_issuer() {
    let kp = AsymmetricKeyPair::<V4>::generate().unwrap();
    let sk = SymmetricKey::<V4>::generate().unwrap();
    let p = public_plugin(&kp); // public-only issuer
    let token = pasetors::local::encrypt(&sk, &claims(ISS, "mcpg", "bob"), None, None).unwrap();
    assert!(matches!(resolve(&p, &token), IdentityResolution::Invalid { .. }));
    assert_eq!(
        reason(resolve(&p, &token)),
        "not a v4.public token for issuer 'https://idp.example': TokenFormat"
    );
}

#[test]
fn public_token_rejected_by_local_issuer() {
    let kp = AsymmetricKeyPair::<V4>::generate().unwrap();
    let p = local_plugin(&SymmetricKey::<V4>::generate().unwrap());
    assert_eq!(
        reason(resolve(&p, &sign(&kp, &claims(ISS, "mcpg", "bob")))),
        "not a v4.local token for issuer 'https://idp.example': TokenFormat"
    );
}

#[test]
fn garbled_token_invalid() {
    let p = public_plugin(&AsymmetricKeyPair::<V4>::generate().unwrap());
    assert_eq!(
        reason(resolve(&p, "v4.public.*")),
        "not a v4.public token for issuer 'https://idp.example': Base64"
    );
    assert_eq!(
        reason(resolve(&p, "v4.public.AAAA")),
        "not a v4.public token for issuer 'https://idp.example': TokenFormat"
    );
}

#[test]
fn header_asserted_trust_propagates() {
    let kp = AsymmetricKeyPair::<V4>::generate().unwrap();
    let mut cfg = config(vec![profile(ISS, &["mcpg"], public_key(&kp))]);
    cfg.resolution.trust_level = "header_asserted".to_owned();
    let p = build(cfg);
    let token = sign(&kp, &claims(ISS, "mcpg", "alice"));
    match resolve(&p, &token) {
        IdentityResolution::Resolved { identity } => {
            assert_eq!(identity.trust_level, "header_asserted");
            assert_eq!(identity.kind, "header_asserted");
        }
        other => panic!("expected Resolved, got {other:?}"),
    }
}

#[test]
fn custom_header_token_source() {
    let kp = AsymmetricKeyPair::<V4>::generate().unwrap();
    let mut cfg = config(vec![profile(ISS, &["mcpg"], public_key(&kp))]);
    cfg.token_source = TokenSourceConfig {
        kind: TokenSourceKind::CustomHeader,
        header_name: Some("X-Token".to_owned()),
        header_prefix: None,
    };
    let p = build(cfg);
    let token = sign(&kp, &claims(ISS, "mcpg", "alice"));
    let headers = vec![("X-Token".to_owned(), token)];
    assert!(matches!(request(&p, &headers), IdentityResolution::Resolved { .. }));
}

#[test]
fn header_name_and_prefix_ignore_case() {
    let kp = AsymmetricKeyPair::<V4>::generate().unwrap();
    let p = public_plugin(&kp);
    let token = sign(&kp, &claims(ISS, "mcpg", "alice"));
    let headers = vec![("AUTHORIZATION".to_owned(), format!("bEARER {token}"))];
    assert!(matches!(request(&p, &headers), IdentityResolution::Resolved { .. }));
}

#[test]
fn no_token_is_none_and_empty_bearer_is_none() {
    let kp = AsymmetricKeyPair::<V4>::generate().unwrap();
    let p = public_plugin(&kp);
    assert!(matches!(request(&p, &[]), IdentityResolution::NoToken));
    let headers = vec![("Authorization".to_owned(), "Bearer ".to_owned())];
    assert!(matches!(request(&p, &headers), IdentityResolution::NoToken));
}

#[test]
fn other_scheme_is_no_token() {
    let p = public_plugin(&AsymmetricKeyPair::<V4>::generate().unwrap());
    let headers = vec![("Authorization".to_owned(), "Basic YTpi".to_owned())];
    assert!(matches!(request(&p, &headers), IdentityResolution::NoToken));
}

#[test]
fn cut_within_a_character_is_announced() {
    let p = public_plugin(&AsymmetricKeyPair::<V4>::generate().unwrap());
    let across = vec![("Authorization".to_owned(), "Bearer\u{e9}token".to_owned())];
    assert!(!p.can_resolve(&across));
    assert!(p.try_resolve_identity(&across).is_none());
    let behind = vec![("Authorization".to_owned(), "Bearer \u{e9}token".to_owned())];
    assert!(matches!(request(&p, &behind), IdentityResolution::Invalid { .. }));
    assert!(matches!(
        p.try_resolve_identity(&behind),
        Some(IdentityResolution::Invalid { .. })
    ));
}

fn nested(depth: usize) -> Value {
    let mut v = Value::Array(vec![]);
    for _ in 1..depth {
        v = Value::Array(vec![v]);
    }
    v
}

#[test]
fn claims_resolve_to_the_depth_that_json_is_read_to() {
    let kp = AsymmetricKeyPair::<V4>::generate().unwrap();
    let p = public_plugin(&kp);
    let mut c = claims(ISS, "mcpg", "alice");
    c.add_additional("deep", nested(126)).unwrap();
    assert!(matches!(resolve(&p, &sign(&kp, &c)), IdentityResolution::Resolved { .. }));
    c.add_additional("deep", nested(127)).unwrap();
    assert_eq!(
        reason(resolve(&p, &sign(&kp, &c))),
        "token verification failed for issuer 'https://idp.example': ClaimInvalidJson"
    );
}

#[test]
fn claims_survive_being_written_and_read() {
    let kp = AsymmetricKeyPair::<V4>::generate().unwrap();
    let mut mappings = ClaimMappingConfig::default();
    mappings.subject_claim = "user.\"name\"".to_owned();
    let mut mapped = profile(ISS, &["mcpg"], public_key(&kp));
    mapped.claim_mappings = mappings;
    let p = build(config(vec![mapped]));
    let mut c = claims(ISS, "mcpg", "ignored");
    c.add_additional("user", value(r#"{ "\"name\"": "é\n😀", "n": 1e9 }"#)).unwrap();
    match resolve(&p, &sign(&kp, &c)) {
        IdentityResolution::Resolved { identity } => {
            assert_eq!(identity.subject_id.as_deref(), Some("\u{e9}\n\u{1f600}"))
        }
        other => panic!("expected Resolved, got {other:?}"),
    }
}

#[test]
fn outcome_labels() {
    let kp = AsymmetricKeyPair::<V4>::generate().unwrap();
    let p = public_plugin(&kp);
    assert_eq!(resolve(&p, &sign(&kp, &claims(ISS, "mcpg", "alice"))).label(), "resolved");
    assert_eq!(request(&p, &[]).label(), "none");
    assert_eq!(resolve(&p, "junk").label(), "invalid");
}
