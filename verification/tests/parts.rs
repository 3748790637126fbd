use identity_paseto::claims::{
    extract_attributes, extract_string_claim, extract_string_list_claims, map_claims,
};
use identity_paseto::config::{
    ClaimMappingConfig, IssuerConfig, KeyMaterialConfig, ResolutionConfig, TokenSourceConfig,
    TokenSourceKind,
};
use identity_paseto::header::{
    can_extract_token, extract_token, lookup_header, strip_ascii_prefix,
};
use identity_paseto::identity::IdentityResolution;
use identity_paseto::issuer::{compile_issuer, CompiledIssuer};
use identity_paseto::json::{parse_json, resolve_json_path, Json};
use identity_paseto::plugin::settle;
use identity_paseto::string_map::{comes_before, StringMap};
use identity_paseto::text::{
    eq_ignore_ascii_case, is_blank, numeral, same, split_pieces, split_words, trim,
};
use identity_paseto::verify::{allows_audience, check_token, judge, TokenCheck};

fn json(text: &str) -> Json {
    parse_json(text).unwrap()
}

fn strings(items: &[&str]) -> Vec<String> {
    items.iter().map(|s| s.to_string()).collect()
}

fn map(pairs: &[(&str, &str)]) -> StringMap {
    let mut m = StringMap::new();
    for (k, v) in pairs {
        m.insert(k.to_string(), v.to_string());
    }
    m
}

fn issuer(audiences: &[&str]) -> CompiledIssuer {
    let profile = IssuerConfig {
        issuer: "https://idp.example".to_owned(),
        audiences: strings(audiences),
        allow_any_audience: audiences.is_empty(),
        key: KeyMaterialConfig::PublicHex { hex: "0".repeat(64) },
        claim_mappings: ClaimMappingConfig::default(),
    };
    compile_issuer(profile).ok().unwrap()
}

fn reason(r: IdentityResolution) -> String {
    match r {
        IdentityResolution::Invalid { reason } => reason,
        other => panic!("expected Invalid, got {other:?}"),
    }
}

#[test]
fn trims_white_space() {
    assert_eq!(trim("  a b\t\n"), "a b");
    assert_eq!(trim("\u{3000}\u{e9}\u{85}"), "\u{e9}");
    assert_eq!(trim("\u{200b}"), "\u{200b}");
    assert_eq!(trim(" \u{2003} "), "");
    assert!(is_blank(""));
    assert!(is_blank(" \u{1680}\r\n"));
    assert!(!is_blank(" . "));
}

#[test]
fn white_space_is_that_of_std() {
    for u in 0..=0x10ffffu32 {
        if let Some(c) = char::from_u32(u) {
            if c.is_whitespace() || u < 0x3100 {
                assert_eq!(is_blank(&c.to_string()), c.is_whitespace(), "{u:x}");
            }
        }
    }
}

#[test]
fn splits_words_and_pieces() {
    assert_eq!(split_words("read write"), vec!["read", "write"]);
    assert_eq!(split_words(" \ta\u{a0}b  "), vec!["a", "b"]);
    assert!(split_words(" \n").is_empty());
    assert_eq!(split_pieces("realm_access.roles", '.'), vec!["realm_access", "roles"]);
    assert_eq!(split_pieces(".a..b.", '.'), vec!["", "a", "", "b", ""]);
    assert_eq!(split_pieces("", '.'), vec![""]);
    assert_eq!(split_pieces(".a..b.", '.').join("."), ".a..b.");
}

#[test]
fn compares_texts() {
    assert!(eq_ignore_ascii_case("X-Token", "x-tOKEN"));
    assert!(!eq_ignore_ascii_case("X-Token", "X-Toke"));
    assert!(!eq_ignore_ascii_case("\u{c9}", "\u{e9}"));
    assert!(!eq_ignore_ascii_case("[", "{"));
    assert!(same("a", "a"));
    assert!(!same("a", "A"));
    assert!(comes_before("a", "ab"));
    assert!(comes_before("ab", "b"));
    assert!(!comes_before("b", "b"));
    assert!(comes_before("\u{ffff}", "\u{10000}"));
}

#[test]
fn writes_numerals() {
    assert_eq!(numeral(0), "0");
    assert_eq!(numeral(10), "10");
    assert_eq!(numeral(9075), "9075");
    assert_eq!(numeral(usize::MAX), usize::MAX.to_string());
}

#[test]
fn map_keeps_its_keys_in_order() {
    let mut m = map(&[("b", "1"), ("a", "2"), ("c", "3"), ("a", "4")]);
    assert_eq!(m.len(), 3);
    assert_eq!(m.entry(0), (&"a".to_owned(), &"4".to_owned()));
    assert_eq!(m.entry(1), (&"b".to_owned(), &"1".to_owned()));
    assert_eq!(m.entry(2), (&"c".to_owned(), &"3".to_owned()));
    let copy = m.clone();
    m.insert("d".to_owned(), "5".to_owned());
    assert_eq!(copy.len(), 3);
    assert_eq!(copy.get("c").unwrap(), "3");
    assert!(copy.get("d").is_none());
}

fn headers() -> Vec<(String, String)> {
    vec![
        ("Accept".to_owned(), "*/*".to_owned()),
        ("X-Token".to_owned(), "first".to_owned()),
        ("x-token".to_owned(), "second".to_owned()),
    ]
}

#[test]
fn first_header_of_the_name_counts() {
    assert_eq!(lookup_header(&headers(), "X-TOKEN"), Some("first"));
    assert_eq!(lookup_header(&headers(), "x-other"), None);
    assert_eq!(lookup_header(&[], "x-token"), None);
}

#[test]
fn strips_prefixes() {
    assert_eq!(strip_ascii_prefix("bearer abc", "Bearer "), Some("abc"));
    assert_eq!(strip_ascii_prefix("Bearer ", "Bearer "), Some(""));
    assert_eq!(strip_ascii_prefix("Bearer", "Bearer "), None);
    assert_eq!(strip_ascii_prefix("Basic abc", "Bearer "), None);
    assert_eq!(strip_ascii_prefix("\u{e9}x\u{e9}", "\u{e9}X"), Some("\u{e9}"));
    assert_eq!(strip_ascii_prefix("aaaa", "\u{e9}\u{e9}"), None);
}

#[test]
fn extracts_tokens() {
    let mut source = TokenSourceConfig {
        kind: TokenSourceKind::CustomHeader,
        header_name: Some("X-Token".to_owned()),
        header_prefix: None,
    };
    assert!(can_extract_token(&source, &headers()));
    assert_eq!(extract_token(&source, &headers()), Some("first".to_owned()));
    source.header_prefix = Some("FI".to_owned());
    assert_eq!(extract_token(&source, &headers()), Some("rst".to_owned()));
    source.header_prefix = Some("first".to_owned());
    assert_eq!(extract_token(&source, &headers()), None);
    source.header_prefix = Some("second".to_owned());
    assert_eq!(extract_token(&source, &headers()), None);
    source.header_name = Some("x-other".to_owned());
    assert_eq!(extract_token(&source, &headers()), None);
}

#[test]
fn announces_a_cut_within_a_character() {
    let source = TokenSourceConfig::default();
    let across = vec![("authorization".to_owned(), "Bearer\u{20ac}".to_owned())];
    assert!(!can_extract_token(&source, &across));
    let short = vec![("authorization".to_owned(), "\u{20ac}".to_owned())];
    assert!(can_extract_token(&source, &short));
    assert_eq!(extract_token(&source, &short), None);
}

#[test]
fn reads_json() {
    assert!(matches!(json("null"), Json::Null));
    assert!(matches!(json("true"), Json::Bool(true)));
    assert!(matches!(json("-1.5"), Json::Number));
    assert_eq!(json(r#""aé""#).as_str(), Some("a\u{e9}"));
    assert!(parse_json("{").is_none());
    assert!(parse_json("").is_none());
    match json(r#"["x", [], {}]"#) {
        Json::Array(items) => {
            assert_eq!(items.len(), 3);
            assert_eq!(items[0].as_str(), Some("x"));
            assert!(matches!(items[1], Json::Array(_)));
            assert!(matches!(items[2], Json::Object(_)));
        }
        other => panic!("expected an array, got {other:?}"),
    }
}

#[test]
fn reads_json_to_its_depth() {
    assert!(parse_json(&format!("{}{}", "[".repeat(127), "]".repeat(127))).is_some());
    assert!(parse_json(&format!("{}{}", "[".repeat(128), "]".repeat(128))).is_none());
}

#[test]
fn finds_members() {
    let value = json(r#"{ "a": "old", "b": { "": "empty", "c": ["x"] }, "a": "new" }"#);
    assert_eq!(value.get("a").unwrap().as_str(), Some("new"));
    assert!(value.get("c").is_none());
    assert!(json("[1]").get("0").is_none());
    assert_eq!(resolve_json_path(&value, "b.").unwrap().as_str(), Some("empty"));
    assert!(matches!(resolve_json_path(&value, "b.c"), Some(Json::Array(_))));
    assert!(resolve_json_path(&value, "b.c.0").is_none());
    assert!(resolve_json_path(&value, "").is_none());
    let twice = Json::Object(vec![
        ("k".to_owned(), Json::Null),
        ("k".to_owned(), Json::Bool(true)),
    ]);
    assert!(matches!(twice.get("k"), Some(Json::Bool(true))));
}

#[test]
fn paths_go_on_after_a_dot() {
    let value = json(r#"{ "a": { "b": { "c": "x" } } }"#);
    let inner = resolve_json_path(&value, "a.b").unwrap();
    assert_eq!(resolve_json_path(inner, "c").unwrap().as_str(), Some("x"));
    assert_eq!(resolve_json_path(&value, "a.b.c").unwrap().as_str(), Some("x"));
    assert!(resolve_json_path(&value, "a.x.c").is_none());
}

#[test]
fn extracts_claims() {
    let claims = json(r#"{ "a": { "b": "x" }, "n": 1, "l": ["p q", 2, "r"], "w": " s  t " }"#);
    assert_eq!(extract_string_claim(&claims, "a.b"), Some("x".to_owned()));
    assert_eq!(extract_string_claim(&claims, "a"), None);
    assert_eq!(extract_string_claim(&claims, "n"), None);
    assert_eq!(extract_string_claim(&claims, "a.c"), None);
    assert_eq!(
        extract_string_list_claims(&claims, &strings(&["w", "none", "l", "n", "a", "a.b", "w"])),
        vec!["s", "t", "p q", "r", "x", "s", "t"]
    );
    assert!(extract_string_list_claims(&claims, &[]).is_empty());
}

#[test]
fn last_mapping_to_an_attribute_wins() {
    let claims = json(r#"{ "a": "1", "b": "2", "c": 3 }"#);
    let found = extract_attributes(
        &claims,
        &map(&[("c", "x"), ("b", "x"), ("a", "x"), ("a.b", "y")]),
    );
    assert_eq!(found.len(), 1);
    assert_eq!(found.get("x").unwrap(), "2");
}

#[test]
fn maps_claims() {
    let resolution = ResolutionConfig {
        trust_level: "header_asserted".to_owned(),
        auth_provider_label: "partner".to_owned(),
    };
    let ci = issuer(&["mcpg"]);
    match map_claims(&ci, &json(r#"{ "sub": "alice", "scope": "read" }"#), &resolution) {
        IdentityResolution::Resolved { identity } => {
            assert_eq!(identity.kind, "header_asserted");
            assert_eq!(identity.trust_level, "header_asserted");
            assert_eq!(identity.subject_id.as_deref(), Some("alice"));
            assert_eq!(identity.auth_provider.as_deref(), Some("partner"));
            assert_eq!(identity.issuer.as_deref(), Some("https://idp.example"));
            assert_eq!(identity.scopes, vec!["read"]);
        }
        other => panic!("expected Resolved, got {other:?}"),
    }
    for claims in ["{}", r#"{ "sub": " " }"#, r#"{ "sub": 7 }"#, "[]"] {
        assert_eq!(
            reason(map_claims(&ci, &json(claims), &resolution)),
            "missing or empty 'sub' (subject) claim"
        );
    }
}

#[test]
fn allows_listed_audiences() {
    let several = issuer(&["svc-a", "svc-b"]);
    assert!(allows_audience(&several, &json(r#"{ "aud": "svc-b" }"#)));
    assert!(!allows_audience(&several, &json(r#"{ "aud": "svc-c" }"#)));
    assert!(!allows_audience(&several, &json(r#"{ "aud": ["svc-a"] }"#)));
    assert!(!allows_audience(&several, &json("{}")));
    assert!(allows_audience(&issuer(&["svc-a"]), &json("{}")));
    assert!(allows_audience(&issuer(&[]), &json("{}")));
}

#[test]
fn judges_every_check() {
    let ci = issuer(&["svc-a", "svc-b"]);
    let resolution = ResolutionConfig::default();
    let error = "E".to_owned();
    let cases = vec![
        (
            TokenCheck::NotPublic { error: error.clone() },
            "not a v4.public token for issuer 'https://idp.example': E",
        ),
        (
            TokenCheck::NotLocal { error: error.clone() },
            "not a v4.local token for issuer 'https://idp.example': E",
        ),
        (
            TokenCheck::Rejected { error },
            "token verification failed for issuer 'https://idp.example': E",
        ),
        (TokenCheck::NoClaims, "verified token carried no claims"),
        (TokenCheck::Unreadable, "could not read verified token claims"),
        (
            TokenCheck::Verified { claims: json(r#"{ "sub": "alice" }"#) },
            "audience not allowed for issuer 'https://idp.example'",
        ),
        (
            TokenCheck::Verified { claims: json(r#"{ "aud": "svc-a" }"#) },
            "missing or empty 'sub' (subject) claim",
        ),
    ];
    for (check, expected) in cases {
        assert_eq!(reason(judge(&ci, &check, &resolution)), expected);
    }
    let good = TokenCheck::Verified { claims: json(r#"{ "sub": "alice", "aud": "svc-a" }"#) };
    assert!(matches!(judge(&ci, &good, &resolution), IdentityResolution::Resolved { .. }));
}

#[test]
fn check_tells_what_is_no_token() {
    match check_token(&issuer(&["mcpg"]), "v4.local.AAAA") {
        TokenCheck::NotPublic { error } => assert_eq!(error, "TokenFormat"),
        other => panic!("expected NotPublic, got {other:?}"),
    }
}

fn resolved(subject: &str) -> IdentityResolution {
    let claims = json(&format!(r#"{{ "sub": "{subject}" }}"#));
    map_claims(&issuer(&[]), &claims, &ResolutionConfig::default())
}

fn invalid(reason: &str) -> IdentityResolution {
    IdentityResolution::Invalid { reason: reason.to_owned() }
}

#[test]
fn settles_on_the_first_success() {
    let attempts = vec![invalid("a"), resolved("one"), invalid("b"), resolved("two")];
    match settle(attempts) {
        IdentityResolution::Resolved { identity } => {
            assert_eq!(identity.subject_id.as_deref(), Some("one"))
        }
        other => panic!("expected Resolved, got {other:?}"),
    }
}

#[test]
fn settles_on_the_last_failure() {
    assert_eq!(reason(settle(vec![invalid("a"), invalid("b")])), "b");
    assert_eq!(reason(settle(vec![])), "no configured issuer accepted the token");
}
