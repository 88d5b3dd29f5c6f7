use base64::Engine;
use permguard_trustplane::bridge::{
    BridgeConfig, BridgeRegistry, BridgeType, BridgeTypeConfig, ClaimMapping, JwtBridgeConfig,
    MappingConfig,
};
use permguard_trustplane::credentials::keys::{Jwk, KeyPair};
use permguard_trustplane::credentials::provider::{CredentialProvider, InMemoryProvider};
use permguard_trustplane::error::ErrorKind;
use permguard_trustplane::exchange::{
    begin_exchange, complete_exchange, ExchangeRequest, ExchangeResponse, ExchangeStep,
    TokenVerification,
};
use permguard_trustplane::jwt::{
    begin_verification, parse_token, select_key, verify_token, verify_with_keys, KeyStep,
};
use permguard_trustplane::pca::Pca;

fn seg(bytes: &[u8]) -> String {
    base64::engine::general_purpose::URL_SAFE_NO_PAD.encode(bytes)
}

fn signed_token(key: &KeyPair, header: &str, payload: &str) -> String {
    let signed = format!("{}.{}", seg(header.as_bytes()), seg(payload.as_bytes()));
    let signature = key.sign(signed.as_bytes());
    format!("{}.{}", signed, seg(&signature))
}

const HEADER: &str = r#"{"alg":"EdDSA","typ":"JWT","kid":"idp-1"}"#;

fn payload(audience: &str) -> String {
    format!(
        r#"{{"iss":"https://auth.example.com","aud":{},"sub":"alice","org":"Acme","scope":"read","grp":"blue","exp":1900000000,"roles":["a","b"]}}"#,
        audience
    )
}

fn idp_key() -> KeyPair {
    KeyPair::generate("idp-1")
}

fn mapping() -> MappingConfig {
    MappingConfig {
        subject_claim: String::new(),
        organization_claim: String::new(),
        custom: vec![
            ClaimMapping { claim: "grp".to_string(), field: "team".to_string() },
            ClaimMapping { claim: "roles".to_string(), field: "roles".to_string() },
            ClaimMapping { claim: "exp".to_string(), field: "until".to_string() },
        ],
    }
}

fn finding_name(v: &TokenVerification) -> &'static str {
    match v {
        TokenVerification::Verified(_) => "verified",
        TokenVerification::Malformed => "malformed",
        TokenVerification::UnsupportedAlgorithm => "unsupported algorithm",
        TokenVerification::KeysUnavailable => "keys unavailable",
        TokenVerification::BadSignature => "bad signature",
    }
}

#[test]
fn token_is_taken_apart_at_its_dots() {
    let key = idp_key();
    let token = signed_token(&key, HEADER, &payload(r#""api""#));
    let parsed = parse_token(&token).unwrap();
    assert_eq!(parsed.kid, Some("idp-1".to_string()));
    assert_eq!(parsed.payload, payload(r#""api""#).into_bytes());
    let second_dot = token.rfind('.').unwrap();
    assert_eq!(parsed.signed, token.as_bytes()[..second_dot].to_vec());
    assert_eq!(parsed.signature, key.sign(&parsed.signed));
    // a header that names no key
    let nameless = signed_token(&key, r#"{"alg":"EdDSA"}"#, "{}");
    assert_eq!(parse_token(&nameless).unwrap().kid, None);
    assert_eq!(parse_token(&nameless).unwrap().payload, b"{}".to_vec());
    // empty payload and signature segments are segments still
    let bare = format!("{}..", seg(br#"{"alg":"EdDSA"}"#));
    let parsed = parse_token(&bare).unwrap();
    assert!(parsed.payload.is_empty());
    assert!(parsed.signature.is_empty());
}

#[test]
fn tokens_that_cannot_be_taken_apart() {
    let h = seg(HEADER.as_bytes());
    let cases = [
        (String::new(), "malformed"),
        ("abc".to_string(), "malformed"),
        (format!("{}.e30", h), "malformed"),
        (format!("{}.e30.AA.AA", h), "malformed"),
        (format!("{}.e30.A", h), "malformed"),
        (format!("{}.e+30.AA", h), "malformed"),
        (format!("{}=.e30.AA", h), "malformed"),
        (format!("{}.e30.AA", seg(br#"{"alg":"RS256"}"#)), "unsupported algorithm"),
        (format!("{}.e30.AA", seg(br#"{"typ":"JWT"}"#)), "unsupported algorithm"),
        (format!("{}.e30.AA", seg(br#"{"alg":7}"#)), "unsupported algorithm"),
        (format!("{}.e30.AA", seg(b"not json")), "unsupported algorithm"),
        (format!("{}.e30.AA", seg(br#"["alg","EdDSA"]"#)), "unsupported algorithm"),
    ];
    for (token, want) in cases {
        match parse_token(&token) {
            Err(v) => assert_eq!(finding_name(&v), want, "{}", token),
            Ok(_) => panic!("{} was taken apart", token),
        }
    }
}

#[test]
fn verified_token_says_what_the_bridge_asks_for() {
    let key = idp_key();
    let token = signed_token(&key, HEADER, &payload(r#"["web","api",7]"#));
    let parsed = parse_token(&token).unwrap();
    let public = key.public_key_bytes();
    match verify_token(&parsed, Some(&public), &mapping()) {
        TokenVerification::Verified(claims) => {
            assert_eq!(claims.issuer, "https://auth.example.com");
            assert_eq!(claims.audiences, vec!["web".to_string(), "api".to_string()]);
            let pairs: Vec<(&str, &str)> =
                claims.claims.iter().map(|c| (c.name.as_str(), c.value.as_str())).collect();
            // the claims asked for, in order, as far as the payload holds them as texts
            assert_eq!(
                pairs,
                vec![("sub", "alice"), ("org", "Acme"), ("scope", "read"), ("grp", "blue")]
            );
        }
        other => panic!("{}", finding_name(&other)),
    }
    // one audience as a text
    let single = parse_token(&signed_token(&key, HEADER, &payload(r#""api""#))).unwrap();
    match verify_token(&single, Some(&public), &mapping()) {
        TokenVerification::Verified(claims) => assert_eq!(claims.audiences, vec!["api".to_string()]),
        other => panic!("{}", finding_name(&other)),
    }
    // no audience at all
    let none = parse_token(&signed_token(&key, HEADER, r#"{"iss":"i"}"#)).unwrap();
    match verify_token(&none, Some(&public), &MappingConfig::default()) {
        TokenVerification::Verified(claims) => {
            assert_eq!(claims.issuer, "i");
            assert!(claims.audiences.is_empty());
            assert!(claims.claims.is_empty());
        }
        other => panic!("{}", finding_name(&other)),
    }
}

#[test]
fn token_findings() {
    let key = idp_key();
    let other = KeyPair::generate("idp-2");
    let token = signed_token(&key, HEADER, &payload(r#""api""#));
    let parsed = parse_token(&token).unwrap();
    let m = mapping();
    assert_eq!(finding_name(&verify_token(&parsed, None, &m)), "keys unavailable");
    assert_eq!(
        finding_name(&verify_token(&parsed, Some(&other.public_key_bytes()), &m)),
        "bad signature"
    );
    assert_eq!(finding_name(&verify_token(&parsed, Some(&[1, 2, 3]), &m)), "bad signature");
    // a payload altered after signing
    let mut forged = parse_token(&token).unwrap();
    forged.signed.push(b'x');
    assert_eq!(
        finding_name(&verify_token(&forged, Some(&key.public_key_bytes()), &m)),
        "bad signature"
    );
    // signed, but the payload is no object with an issuer
    for body in ["{}", "[]", "not json", r#"{"iss":7}"#] {
        let parsed = parse_token(&signed_token(&key, HEADER, body)).unwrap();
        assert_eq!(
            finding_name(&verify_token(&parsed, Some(&key.public_key_bytes()), &m)),
            "malformed",
            "{}",
            body
        );
    }
}

fn published(keys: &[&KeyPair]) -> Vec<Jwk> {
    keys.iter().map(|k| k.public_jwk()).collect()
}

#[test]
fn key_is_selected_by_its_identifier() {
    let a = KeyPair::generate("idp-1");
    let b = KeyPair::generate("idp-2");
    let keys = published(&[&a, &b]);
    assert_eq!(select_key(&keys, &Some("idp-2".to_string())), Some(b.public_key_bytes().to_vec()));
    assert_eq!(select_key(&keys, &Some("idp-1".to_string())), Some(a.public_key_bytes().to_vec()));
    assert_eq!(select_key(&keys, &Some("idp-3".to_string())), None);
    // a token that names no key takes the first
    assert_eq!(select_key(&keys, &None), Some(a.public_key_bytes().to_vec()));
    assert_eq!(select_key(&vec![], &None), None);
    // keys of another kind, or that cannot be read, are passed over
    let mut rsa = a.public_jwk();
    rsa.kty = "RSA".to_string();
    let mut curve = a.public_jwk();
    curve.crv = "X25519".to_string();
    let mut unreadable = a.public_jwk();
    unreadable.x = "!!".to_string();
    let mut unnamed = b.public_jwk();
    unnamed.kid = None;
    let keys = vec![rsa, curve, unreadable, unnamed, b.public_jwk()];
    assert_eq!(select_key(&keys, &Some("idp-1".to_string())), None);
    assert_eq!(select_key(&keys, &Some("idp-2".to_string())), Some(b.public_key_bytes().to_vec()));
    assert_eq!(select_key(&keys, &None), Some(b.public_key_bytes().to_vec()));
}

#[test]
fn token_is_checked_against_published_keys() {
    let a = KeyPair::generate("idp-1");
    let b = KeyPair::generate("idp-2");
    let token = parse_token(&signed_token(&a, HEADER, &payload(r#""api""#))).unwrap();
    let m = mapping();
    assert_eq!(finding_name(&verify_with_keys(&token, None, &m)), "keys unavailable");
    assert_eq!(finding_name(&verify_with_keys(&token, Some(&vec![]), &m)), "keys unavailable");
    assert_eq!(
        finding_name(&verify_with_keys(&token, Some(&published(&[&b])), &m)),
        "keys unavailable"
    );
    assert_eq!(
        finding_name(&verify_with_keys(&token, Some(&published(&[&b, &a])), &m)),
        "verified"
    );
    // the key published under the token's identifier is another key
    let impostor = KeyPair::generate("idp-1");
    assert_eq!(
        finding_name(&verify_with_keys(&token, Some(&published(&[&impostor, &a])), &m)),
        "bad signature"
    );
}

fn jwt_bridge(audiences: &[&str]) -> BridgeConfig {
    BridgeConfig {
        id: String::new(),
        bridge_type: BridgeType::Jwt,
        enabled: true,
        config: BridgeTypeConfig::Jwt(JwtBridgeConfig {
            wellknown_url: "https://auth.example.com/.well-known/openid-configuration".to_string(),
            issuer: "https://auth.example.com".to_string(),
            audiences: audiences.iter().map(|a| a.to_string()).collect(),
            mapping: mapping(),
        }),
    }
}

fn exchange_token(audience: &str) -> Result<Vec<u8>, permguard_trustplane::error::Error> {
    let creds =
        InMemoryProvider { did: "did:web:tp".to_string(), organization: "Acme".to_string() }
            .load()
            .unwrap();
    let idp = idp_key();
    let mut registry = BridgeRegistry::new();
    let id = registry.add(jwt_bridge(&["api"])).unwrap();
    let token = signed_token(&idp, HEADER, &payload(audience));
    let request = ExchangeRequest { bridge_id: id, credential: token.into_bytes() };
    let (config, token) = match begin_exchange(&registry, &request) {
        ExchangeStep::Verify { config, token } => (config, token),
        ExchangeStep::Respond(_, r) => panic!("turned down: {}", r.error),
    };
    let verification = match parse_token(&token) {
        Err(finding) => finding,
        Ok(parsed) => verify_with_keys(&parsed, Some(&published(&[&idp])), &config.mapping),
    };
    complete_exchange(&config, verification, &creds, 1000, 300)
}

#[test]
fn signed_token_for_the_bridge_is_exchanged() {
    let pca = exchange_token(r#"["api"]"#).unwrap();
    let root = Pca::decode(&pca).unwrap();
    assert_eq!(root.sequence, 0);
    assert_eq!(root.subject, "alice");
    assert_eq!(root.issuer, "did:web:tp");
    assert_eq!(root.claims.organization, "Acme");
    assert_eq!(root.claims.scope, "read");
    assert_eq!(root.claims.custom.len(), 1);
    assert_eq!(root.claims.custom[0].name, "team");
    assert_eq!(root.claims.custom[0].value, "blue");
}

#[test]
fn signed_token_for_another_audience_is_not_exchanged() {
    let outcome = exchange_token(r#"["other"]"#);
    match &outcome {
        Err(e) => assert_eq!(e.kind(), ErrorKind::Invalid),
        Ok(_) => panic!("the token was exchanged"),
    }
    let response = ExchangeResponse::from_outcome(outcome);
    assert_eq!(response.pca, Vec::<u8>::new());
    assert_eq!(response.error, "invalid: token audience is not accepted");
}

#[test]
fn keys_are_fetched_only_for_a_token_that_can_be_taken_apart() {
    let bridge = jwt_bridge(&["api"]);
    let config = match &bridge.config {
        BridgeTypeConfig::Jwt(jwt) => jwt,
    };
    let key = idp_key();
    match begin_verification(config, &signed_token(&key, HEADER, &payload(r#""api""#))) {
        KeyStep::Fetch { wellknown_url, token } => {
            assert_eq!(wellknown_url, "https://auth.example.com/.well-known/openid-configuration");
            assert_eq!(token.kid, Some("idp-1".to_string()));
            assert_eq!(token.payload, payload(r#""api""#).into_bytes());
        }
        KeyStep::Found(v) => panic!("{}", finding_name(&v)),
    }
    match begin_verification(config, "no token") {
        KeyStep::Found(v) => assert_eq!(finding_name(&v), "malformed"),
        KeyStep::Fetch { .. } => panic!("keys were asked for"),
    }
    let other = format!("{}.e30.AA", seg(br#"{"alg":"RS256"}"#));
    match begin_verification(config, &other) {
        KeyStep::Found(v) => assert_eq!(finding_name(&v), "unsupported algorithm"),
        KeyStep::Fetch { .. } => panic!("keys were asked for"),
    }
}
