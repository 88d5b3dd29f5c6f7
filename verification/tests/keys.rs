use permguard_trustplane::credentials::keys::{verify, Jwk, KeyPair};
use permguard_trustplane::error::{Error, ErrorKind};

// The key pair of the first test vector of RFC 8032, which RFC 8037 writes as a JWK.
const SECRET: [u8; 32] = [
    0x9d, 0x61, 0xb1, 0x9d, 0xef, 0xfd, 0x5a, 0x60, 0xba, 0x84, 0x4a, 0xf4, 0x92, 0xec, 0x2c, 0xc4,
    0x44, 0x49, 0xc5, 0x69, 0x7b, 0x32, 0x69, 0x19, 0x70, 0x3b, 0xac, 0x03, 0x1c, 0xae, 0x7f, 0x60,
];
const PUBLIC: [u8; 32] = [
    0xd7, 0x5a, 0x98, 0x01, 0x82, 0xb1, 0x0a, 0xb7, 0xd5, 0x4b, 0xfe, 0xd3, 0xc9, 0x64, 0x07, 0x3a,
    0x0e, 0xe1, 0x72, 0xf3, 0xda, 0xa6, 0x23, 0x25, 0xaf, 0x02, 0x1a, 0x68, 0xf7, 0x07, 0x51, 0x1a,
];
const SIGNATURE_OF_EMPTY: [u8; 64] = [
    0xe5, 0x56, 0x43, 0x00, 0xc3, 0x60, 0xac, 0x72, 0x90, 0x86, 0xe2, 0xcc, 0x80, 0x6e, 0x82, 0x8a,
    0x84, 0x87, 0x7f, 0x1e, 0xb8, 0xe5, 0xd9, 0x74, 0xd8, 0x73, 0xe0, 0x65, 0x22, 0x49, 0x01, 0x55,
    0x5f, 0xb8, 0x82, 0x15, 0x90, 0xa3, 0x3b, 0xac, 0xc6, 0x1e, 0x39, 0x70, 0x1c, 0xf9, 0xb4, 0x6b,
    0xd2, 0x5b, 0xf5, 0xf0, 0x59, 0x5b, 0xbe, 0x24, 0x65, 0x51, 0x41, 0x43, 0x8e, 0x7a, 0x10, 0x0b,
];

#[test]
fn import_derives_the_public_key() {
    let key = KeyPair::from_bytes("did:web:example.com#key-1", &SECRET).unwrap();
    assert_eq!(key.kid(), "did:web:example.com#key-1");
    assert_eq!(key.private_key_bytes(), SECRET);
    assert_eq!(key.public_key_bytes(), PUBLIC);
}

#[test]
fn import_rejects_other_lengths() {
    for len in [0usize, 1, 31, 33, 64] {
        let bytes = vec![7u8; len];
        match KeyPair::from_bytes("k", &bytes) {
            Err(Error::Crypto(m)) => assert_eq!(m, "Invalid private key"),
            _ => panic!("a key of {} bytes was imported", len),
        }
    }
}

#[test]
fn signing_is_deterministic_and_matches_the_standard() {
    let key = KeyPair::from_bytes("k", &SECRET).unwrap();
    let signature = key.sign(b"");
    assert_eq!(signature, SIGNATURE_OF_EMPTY.to_vec());
    assert_eq!(key.sign(b""), signature);
    assert_ne!(key.sign(b"x"), signature);
}

#[test]
fn verify_accepts_only_the_signed_message_under_the_signing_key() {
    let key = KeyPair::from_bytes("k", &SECRET).unwrap();
    let signature = key.sign(b"message");
    assert_eq!(signature.len(), 64);
    assert!(verify(&key.public_key_bytes(), b"message", &signature));
    assert!(!verify(&key.public_key_bytes(), b"messagf", &signature));
    let other = KeyPair::generate("other");
    assert!(!verify(&other.public_key_bytes(), b"message", &signature));
    let mut altered = signature.clone();
    altered[10] ^= 1;
    assert!(!verify(&key.public_key_bytes(), b"message", &altered));
    assert!(!verify(&key.public_key_bytes(), b"message", &signature[..63]));
    assert!(!verify(&key.public_key_bytes(), b"message", &[]));
}

#[test]
fn generated_keys_differ_and_sign() {
    let a = KeyPair::generate("a");
    let b = KeyPair::generate("b");
    assert_eq!(a.kid(), "a");
    assert_ne!(a.private_key_bytes(), b.private_key_bytes());
    assert_ne!(a.public_key_bytes(), b.public_key_bytes());
    let again = KeyPair::from_bytes("a", &a.private_key_bytes()).unwrap();
    assert_eq!(again.public_key_bytes(), a.public_key_bytes());
    assert!(verify(&a.public_key_bytes(), b"m", &a.sign(b"m")));
}

#[test]
fn public_jwk_has_the_standard_form() {
    let key = KeyPair::from_bytes("key-1", &SECRET).unwrap();
    let jwk = key.public_jwk();
    assert_eq!(jwk.kty, "OKP");
    assert_eq!(jwk.crv, "Ed25519");
    assert_eq!(jwk.x, "11qYAYKxCrfVS_7TyWQHOg7hcvPapiMlrwIaaPcHURo");
    assert_eq!(jwk.d, None);
    assert_eq!(jwk.kid, Some("key-1".to_string()));
}

#[test]
fn private_jwk_round_trip() {
    let key = KeyPair::from_bytes("key-1", &SECRET).unwrap();
    let jwk = key.private_jwk();
    assert_eq!(jwk.x, "11qYAYKxCrfVS_7TyWQHOg7hcvPapiMlrwIaaPcHURo");
    assert_eq!(jwk.d, Some("nWGxne_9WmC6hEr0kuwsxERJxWl7MmkZcDusAxyuf2A".to_string()));
    let back = KeyPair::from_jwk(&jwk).unwrap();
    assert_eq!(back.kid(), "key-1");
    assert_eq!(back.private_key_bytes(), SECRET);
    assert_eq!(back.public_key_bytes(), PUBLIC);
}

fn jwk_with(kid: Option<&str>, d: Option<&str>) -> Jwk {
    Jwk {
        kty: "OKP".to_string(),
        crv: "Ed25519".to_string(),
        x: String::new(),
        d: d.map(|s| s.to_string()),
        kid: kid.map(|s| s.to_string()),
    }
}

fn crypto_detail(r: Result<KeyPair, Error>) -> String {
    match r {
        Err(e) => {
            assert_eq!(e.kind(), ErrorKind::Crypto);
            match e {
                Error::Crypto(m) => m,
                _ => unreachable!(),
            }
        }
        Ok(_) => panic!("the JWK was imported"),
    }
}

#[test]
fn from_jwk_names_what_is_wrong() {
    let d = "nWGxne_9WmC6hEr0kuwsxERJxWl7MmkZcDusAxyuf2A";
    assert_eq!(crypto_detail(KeyPair::from_jwk(&jwk_with(None, Some(d)))), "Missing kid in JWK");
    assert_eq!(
        crypto_detail(KeyPair::from_jwk(&jwk_with(Some("k"), None))),
        "Missing private key (d) in JWK"
    );
    assert_eq!(
        crypto_detail(KeyPair::from_jwk(&jwk_with(Some("k"), Some("not base64!")))),
        "Invalid base64 in JWK"
    );
    // padded base64 is not what a JWK holds
    assert_eq!(
        crypto_detail(KeyPair::from_jwk(&jwk_with(Some("k"), Some("AAAA=")))),
        "Invalid base64 in JWK"
    );
    assert_eq!(
        crypto_detail(KeyPair::from_jwk(&jwk_with(Some("k"), Some("AAAA")))),
        "Invalid private key"
    );
    // the first fault decides
    assert_eq!(crypto_detail(KeyPair::from_jwk(&jwk_with(None, None))), "Missing kid in JWK");
}

#[test]
fn cloned_key_is_the_same_key() {
    let key = KeyPair::generate("k");
    let copy = key.clone();
    assert_eq!(copy.kid(), key.kid());
    assert_eq!(copy.private_key_bytes(), key.private_key_bytes());
    assert_eq!(copy.public_key_bytes(), key.public_key_bytes());
}
