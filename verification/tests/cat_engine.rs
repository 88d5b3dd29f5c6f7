use permguard_trustplane::cat::{transition, transition_at, transition_now, TransitionRequest, DEFAULT_TTL_SECONDS};
use permguard_trustplane::pca::{content_hash, expiry_at, mint_root, Claim, Pca, PcaClaims, Predecessor};
use permguard_trustplane::credentials::keys::{verify, KeyPair};
use permguard_trustplane::credentials::provider::{CredentialProvider, InMemoryProvider};
use permguard_trustplane::credentials::{CredentialsManager, TrustPlaneCredentials};
use permguard_trustplane::error::{Error, ErrorKind};

fn engine_creds(did: &str) -> TrustPlaneCredentials {
    InMemoryProvider { did: did.to_string(), organization: "Acme".to_string() }.load().unwrap()
}

fn engine_manager() -> CredentialsManager {
    CredentialsManager::new(engine_creds("did:web:tp.example.com"))
}

fn engine_claims() -> PcaClaims {
    PcaClaims {
        organization: "Acme".to_string(),
        scope: "read write".to_string(),
        custom: vec![Claim { name: "team".to_string(), value: "blue".to_string() }],
    }
}

fn engine_root(manager: &CredentialsManager, now: u64) -> Vec<u8> {
    let creds = manager.current();
    mint_root(&creds, "alice".to_string(), engine_claims(), now, 300).unwrap().encode().unwrap()
}

fn fault(r: Result<Vec<u8>, Error>) -> (ErrorKind, String) {
    match r {
        Ok(_) => panic!("the transition was made"),
        Err(e) => {
            let kind = e.kind();
            let detail = match e {
                Error::Invalid(m) | Error::NotFound(m) | Error::Crypto(m) | Error::Internal(m) => m,
                _ => panic!("unexpected error"),
            };
            (kind, detail)
        }
    }
}

#[test]
fn sha256_of_abc() {
    let want: [u8; 32] = [
        0xba, 0x78, 0x16, 0xbf, 0x8f, 0x01, 0xcf, 0xea, 0x41, 0x41, 0x40, 0xde, 0x5d, 0xae, 0x22,
        0x23, 0xb0, 0x03, 0x61, 0xa3, 0x96, 0x17, 0x7a, 0x9c, 0xb4, 0x10, 0xff, 0x61, 0xf2, 0x00,
        0x15, 0xad,
    ];
    assert_eq!(content_hash(b"abc"), want.to_vec());
}

#[test]
fn encoding_is_exact() {
    let pca = Pca {
        subject: "al".to_string(),
        issuer: "é".to_string(),
        sequence: 0x0102,
        previous: Predecessor::Root,
        expires_at: 7,
        claims: PcaClaims {
            organization: "o".to_string(),
            scope: String::new(),
            custom: vec![Claim { name: "k".to_string(), value: "v".to_string() }],
        },
        kid: "K".to_string(),
        signature: vec![0xaa, 0xbb],
    };
    let mut want: Vec<u8> = vec![1];
    want.extend([2, 0, 0, 0, b'a', b'l']);
    want.extend([2, 0, 0, 0, 0xc3, 0xa9]);
    want.extend([2, 1, 0, 0, 0, 0, 0, 0]);
    want.push(0);
    want.extend([7, 0, 0, 0, 0, 0, 0, 0]);
    want.extend([1, 0, 0, 0, b'o']);
    want.extend([0, 0, 0, 0]);
    want.extend([1, 0, 0, 0]);
    want.extend([1, 0, 0, 0, b'k', 1, 0, 0, 0, b'v']);
    want.extend([1, 0, 0, 0, b'K']);
    let signed_len = want.len();
    want.extend([2, 0, 0, 0, 0xaa, 0xbb]);
    assert_eq!(pca.encode().unwrap(), want);
    assert_eq!(pca.signing_input().unwrap(), want[..signed_len].to_vec());
    assert!(pca.is_encodable());
}

#[test]
fn decoding_undoes_encoding() {
    let pca = Pca {
        subject: "alice ☃".to_string(),
        issuer: "did:web:tp.example.com".to_string(),
        sequence: u64::MAX,
        previous: Predecessor::Hash(vec![9u8; 32]),
        expires_at: 1_900_000_000,
        claims: engine_claims(),
        kid: "did:web:tp.example.com#cat-key-202601".to_string(),
        signature: vec![5u8; 64],
    };
    let bytes = pca.encode().unwrap();
    let back = Pca::decode(&bytes).unwrap();
    assert_eq!(back.subject, "alice ☃");
    assert_eq!(back.issuer, pca.issuer);
    assert_eq!(back.sequence, u64::MAX);
    match &back.previous {
        Predecessor::Hash(h) => assert_eq!(h, &vec![9u8; 32]),
        Predecessor::Root => panic!("the predecessor was lost"),
    }
    assert_eq!(back.expires_at, 1_900_000_000);
    assert_eq!(back.claims.organization, "Acme");
    assert_eq!(back.claims.scope, "read write");
    assert_eq!(back.claims.custom.len(), 1);
    assert_eq!(back.claims.custom[0].name, "team");
    assert_eq!(back.claims.custom[0].value, "blue");
    assert_eq!(back.kid, pca.kid);
    assert_eq!(back.signature, vec![5u8; 64]);
    assert_eq!(back.encode().unwrap(), bytes);
    assert_eq!(back.clone().encode().unwrap(), bytes);
}

#[test]
fn decoding_rejects_what_is_no_encoding() {
    let manager = engine_manager();
    let bytes = engine_root(&manager, 100);
    assert!(Pca::decode(&bytes).is_some());
    assert!(Pca::decode(&[]).is_none());
    assert!(Pca::decode(&[1]).is_none());
    // every strict prefix is malformed
    for n in 0..bytes.len() {
        assert!(Pca::decode(&bytes[..n]).is_none(), "a prefix of {} bytes was decoded", n);
    }
    // trailing bytes
    let mut longer = bytes.clone();
    longer.push(0);
    assert!(Pca::decode(&longer).is_none());
    // another format version
    let mut other = bytes.clone();
    other[0] = 2;
    assert!(Pca::decode(&other).is_none());
    // a subject that is no UTF-8
    let mut text = bytes.clone();
    text[5] = 0xff;
    assert!(Pca::decode(&text).is_none());
}

#[test]
fn hash_of_wrong_length_is_not_encodable() {
    let pca = Pca {
        subject: String::new(),
        issuer: String::new(),
        sequence: 1,
        previous: Predecessor::Hash(vec![1u8; 31]),
        expires_at: 0,
        claims: PcaClaims { organization: String::new(), scope: String::new(), custom: vec![] },
        kid: String::new(),
        signature: vec![],
    };
    assert!(!pca.is_signable());
    assert!(!pca.is_encodable());
    assert!(pca.encode().is_none());
    assert!(pca.signing_input().is_none());
    assert!(pca.seal(&KeyPair::generate("k")).is_none());
}

#[test]
fn expiry_saturates() {
    assert_eq!(expiry_at(100, 300), 400);
    assert_eq!(expiry_at(0, 0), 0);
    assert_eq!(expiry_at(u64::MAX - 1, 1), u64::MAX);
    assert_eq!(expiry_at(u64::MAX - 1, 2), u64::MAX);
    assert_eq!(expiry_at(u64::MAX, u64::MAX), u64::MAX);
    assert_eq!(DEFAULT_TTL_SECONDS, 300);
}

#[test]
fn root_has_sequence_zero_and_no_predecessor() {
    let manager = engine_manager();
    let creds = manager.current();
    let root = mint_root(&creds, "alice".to_string(), engine_claims(), 1000, 300).unwrap();
    assert_eq!(root.sequence, 0);
    assert!(matches!(root.previous, Predecessor::Root));
    assert_eq!(root.subject, "alice");
    assert_eq!(root.issuer, "did:web:tp.example.com");
    assert_eq!(root.expires_at, 1300);
    assert_eq!(root.kid, creds.cat_key.kid());
    assert_eq!(root.claims.organization, "Acme");
    assert_eq!(root.signature.len(), 64);
    let signed = root.signing_input().unwrap();
    assert!(verify(&creds.cat_key.public_key_bytes(), &signed, &root.signature));
    assert!(!verify(&creds.issuer_key.public_key_bytes(), &signed, &root.signature));
}

#[test]
fn transition_advances_by_one_and_names_the_input() {
    let manager = engine_manager();
    let root = engine_root(&manager, 1000);
    let next = transition(&manager, &root, None, 1100, 50).unwrap();
    let decoded = Pca::decode(&next).unwrap();
    assert_eq!(decoded.sequence, 1);
    match &decoded.previous {
        Predecessor::Hash(h) => assert_eq!(h, &content_hash(&root)),
        Predecessor::Root => panic!("the successor is a root"),
    }
    assert_eq!(decoded.expires_at, 1150);
    assert_eq!(decoded.subject, "alice");
    assert_eq!(decoded.issuer, "did:web:tp.example.com");
    assert_eq!(decoded.claims.organization, "Acme");
    assert_eq!(decoded.claims.scope, "read write");
    assert_eq!(decoded.claims.custom[0].value, "blue");
    assert_eq!(decoded.kid, manager.current().cat_key.kid());
    // the same request gives the same answer
    assert_eq!(transition(&manager, &root, None, 1100, 50).unwrap(), next);
}

#[test]
fn chain_of_many_transitions() {
    let manager = engine_manager();
    let mut prior: Option<Vec<u8>> = None;
    let mut current = engine_root(&manager, 0);
    for n in 0..100u64 {
        let next = transition(&manager, &current, prior.as_deref(), n, 1000).unwrap();
        let decoded = Pca::decode(&next).unwrap();
        assert_eq!(decoded.sequence, n + 1);
        match &decoded.previous {
            Predecessor::Hash(h) => assert_eq!(h, &content_hash(&current)),
            Predecessor::Root => panic!("the successor is a root"),
        }
        prior = Some(current);
        current = next;
    }
}

#[test]
fn sequence_counts_to_ten_thousand_without_drift() {
    let key = KeyPair::generate("k");
    let mut current = Pca {
        subject: "s".to_string(),
        issuer: "i".to_string(),
        sequence: 0,
        previous: Predecessor::Root,
        expires_at: 10,
        claims: PcaClaims { organization: "o".to_string(), scope: String::new(), custom: vec![] },
        kid: "k".to_string(),
        signature: vec![],
    };
    for n in 0..10_000u64 {
        let bytes = current.encode().unwrap();
        let decoded = Pca::decode(&bytes).unwrap();
        assert_eq!(decoded.sequence, n);
        current = Pca {
            sequence: decoded.sequence + 1,
            previous: Predecessor::Hash(content_hash(&bytes)),
            ..decoded
        };
    }
    assert_eq!(current.sequence, 10_000);
    assert!(current.seal(&key).is_some());
}

#[test]
fn altered_bytes_are_rejected() {
    let manager = engine_manager();
    let root = engine_root(&manager, 1000);
    assert!(transition(&manager, &root, None, 1100, 50).is_ok());
    for at in 0..root.len() {
        let mut altered = root.clone();
        altered[at] ^= 0x01;
        match transition(&manager, &altered, None, 1100, 50) {
            Ok(_) => panic!("a PCA altered at byte {} was transitioned", at),
            Err(e) => assert!(
                matches!(e.kind(), ErrorKind::Invalid | ErrorKind::Crypto | ErrorKind::NotFound),
                "byte {}: {:?}",
                at,
                e
            ),
        }
    }
}

#[test]
fn signature_of_another_key_is_rejected() {
    let manager = engine_manager();
    let creds = manager.current();
    let stranger = KeyPair::generate(creds.cat_key.kid());
    let body = Pca {
        subject: "mallory".to_string(),
        issuer: creds.did.clone(),
        sequence: 0,
        previous: Predecessor::Root,
        expires_at: 5000,
        claims: engine_claims(),
        kid: creds.cat_key.kid().to_string(),
        signature: vec![],
    };
    let forged = body.seal(&stranger).unwrap().encode().unwrap();
    assert_eq!(
        fault(transition(&manager, &forged, None, 1000, 50)),
        (ErrorKind::Crypto, "PCA signature does not verify".to_string())
    );
}

#[test]
fn unknown_key_is_not_found() {
    let manager = engine_manager();
    let stranger = KeyPair::generate("did:web:elsewhere#cat");
    let body = Pca {
        subject: "mallory".to_string(),
        issuer: "did:web:elsewhere".to_string(),
        sequence: 0,
        previous: Predecessor::Root,
        expires_at: 5000,
        claims: engine_claims(),
        kid: "did:web:elsewhere#cat".to_string(),
        signature: vec![],
    };
    let foreign = body.seal(&stranger).unwrap().encode().unwrap();
    assert_eq!(
        fault(transition(&manager, &foreign, None, 1000, 50)),
        (ErrorKind::NotFound, "did:web:elsewhere#cat".to_string())
    );
}

#[test]
fn malformed_input_is_invalid() {
    let manager = engine_manager();
    assert_eq!(
        fault(transition(&manager, &[1, 2, 3], None, 0, 50)),
        (ErrorKind::Invalid, "malformed PCA encoding".to_string())
    );
}

#[test]
fn expired_pca_is_rejected() {
    let manager = engine_manager();
    let root = engine_root(&manager, 1000);
    assert!(transition(&manager, &root, None, 1299, 50).is_ok());
    assert_eq!(
        fault(transition(&manager, &root, None, 1300, 50)),
        (ErrorKind::Invalid, "PCA is expired".to_string())
    );
    assert_eq!(
        fault(transition(&manager, &root, None, u64::MAX, 50)),
        (ErrorKind::Invalid, "PCA is expired".to_string())
    );
}

fn signed_by_manager(manager: &CredentialsManager, sequence: u64, previous: Predecessor) -> Vec<u8> {
    let creds = manager.current();
    Pca {
        subject: "alice".to_string(),
        issuer: creds.did.clone(),
        sequence,
        previous,
        expires_at: 5000,
        claims: engine_claims(),
        kid: creds.cat_key.kid().to_string(),
        signature: vec![],
    }
    .seal(&creds.cat_key)
    .unwrap()
    .encode()
    .unwrap()
}

#[test]
fn root_is_accepted_only_as_root() {
    let manager = engine_manager();
    let root = engine_root(&manager, 1000);
    // a root that comes with a predecessor
    assert_eq!(
        fault(transition(&manager, &root, Some(&root), 1100, 50)),
        (ErrorKind::Invalid, "root PCA has no predecessor".to_string())
    );
    // sequence 0 that names a predecessor
    let odd = signed_by_manager(&manager, 0, Predecessor::Hash(content_hash(&root)));
    assert_eq!(
        fault(transition(&manager, &odd, Some(&root), 1100, 50)),
        (ErrorKind::Invalid, "root PCA names a predecessor".to_string())
    );
    assert_eq!(
        fault(transition(&manager, &odd, None, 1100, 50)),
        (ErrorKind::Invalid, "root PCA names a predecessor".to_string())
    );
    // a later PCA that names none
    let orphan = signed_by_manager(&manager, 3, Predecessor::Root);
    assert_eq!(
        fault(transition(&manager, &orphan, None, 1100, 50)),
        (ErrorKind::Invalid, "PCA past the root names no predecessor".to_string())
    );
}

#[test]
fn chain_continuity_is_checked() {
    let manager = engine_manager();
    let root = engine_root(&manager, 1000);
    let first = transition(&manager, &root, None, 1100, 500).unwrap();
    let second = transition(&manager, &first, Some(&root), 1100, 500).unwrap();
    assert_eq!(Pca::decode(&second).unwrap().sequence, 2);
    // no prior: fail closed
    assert_eq!(
        fault(transition(&manager, &first, None, 1100, 500)),
        (ErrorKind::Invalid, "prior PCA is required".to_string())
    );
    // another prior
    let other_root = engine_root(&manager, 1001);
    assert_eq!(
        fault(transition(&manager, &first, Some(&other_root), 1100, 500)),
        (ErrorKind::Invalid, "prior PCA does not match".to_string())
    );
    assert_eq!(
        fault(transition(&manager, &second, Some(&root), 1100, 500)),
        (ErrorKind::Invalid, "prior PCA does not match".to_string())
    );
    // a prior that is hashed rightly but is no PCA
    let junk = vec![1u8, 2, 3];
    let after_junk = signed_by_manager(&manager, 1, Predecessor::Hash(content_hash(&junk)));
    assert_eq!(
        fault(transition(&manager, &after_junk, Some(&junk), 1100, 500)),
        (ErrorKind::Invalid, "prior PCA is malformed".to_string())
    );
    // a prior that stands elsewhere in the chain
    let skipping = signed_by_manager(&manager, 5, Predecessor::Hash(content_hash(&root)));
    assert_eq!(
        fault(transition(&manager, &skipping, Some(&root), 1100, 500)),
        (ErrorKind::Invalid, "prior PCA is out of sequence".to_string())
    );
}

#[test]
fn last_sequence_cannot_be_transitioned() {
    let manager = engine_manager();
    let prior = signed_by_manager(&manager, u64::MAX - 1, Predecessor::Hash(vec![0u8; 32]));
    let last = signed_by_manager(&manager, u64::MAX, Predecessor::Hash(content_hash(&prior)));
    assert_eq!(
        fault(transition(&manager, &last, Some(&prior), 1100, 500)),
        (ErrorKind::Invalid, "PCA sequence is exhausted".to_string())
    );
}

#[test]
fn retired_key_still_verifies() {
    let mut manager = engine_manager();
    let old_kid = manager.current().cat_key.kid().to_string();
    let root = engine_root(&manager, 1000);
    let rotated = {
        let mut creds = engine_creds("did:web:tp.example.com");
        // same period, so give the new keys their own identifiers
        let issuer = KeyPair::from_bytes("did:web:tp.example.com#issuer-2", &creds.issuer_key.private_key_bytes()).unwrap();
        let cat = KeyPair::from_bytes("did:web:tp.example.com#cat-2", &creds.cat_key.private_key_bytes()).unwrap();
        creds = InMemoryProvider { did: creds.did.clone(), organization: creds.organization.clone() }
            .assemble(issuer, cat, "00000000-0000-4000-8000-000000000000", "2026-01-01T00:00:00+00:00");
        creds
    };
    manager.update(rotated);
    assert_ne!(manager.current().cat_key.kid(), old_kid);
    let next = transition(&manager, &root, None, 1100, 50).unwrap();
    let decoded = Pca::decode(&next).unwrap();
    assert_eq!(decoded.sequence, 1);
    assert_eq!(decoded.kid, "did:web:tp.example.com#cat-2");
    let creds = manager.current();
    assert!(verify(
        &creds.cat_key.public_key_bytes(),
        &decoded.signing_input().unwrap(),
        &decoded.signature
    ));
    // and the chain goes on under the new key
    let third = transition(&manager, &next, Some(&root), 1100, 50).unwrap();
    assert_eq!(Pca::decode(&third).unwrap().sequence, 2);
}

#[test]
fn empty_request_is_answered_exactly() {
    let manager = engine_manager();
    let request = TransitionRequest { pca: vec![], prior_pca: vec![] };
    let out = transition_now(&manager, &request);
    assert_eq!(out.pca, Vec::<u8>::new());
    assert_eq!(out.error, "PCA is required");
    let out = transition_at(&manager, &request, 5, 5);
    assert_eq!(out.pca, Vec::<u8>::new());
    assert_eq!(out.error, "PCA is required");
    // a prior alone does not make a request
    let request = TransitionRequest { pca: vec![], prior_pca: vec![1] };
    assert_eq!(transition_at(&manager, &request, 5, 5).error, "PCA is required");
}

#[test]
fn request_answers_carry_pca_or_error() {
    let manager = engine_manager();
    let root = engine_root(&manager, 1000);
    let ok = transition_at(
        &manager,
        &TransitionRequest { pca: root.clone(), prior_pca: vec![] },
        1100,
        50,
    );
    assert_eq!(ok.error, "");
    assert_eq!(ok.pca, transition(&manager, &root, None, 1100, 50).unwrap());
    let second = transition_at(
        &manager,
        &TransitionRequest { pca: ok.pca.clone(), prior_pca: root.clone() },
        1100,
        50,
    );
    assert_eq!(second.error, "");
    assert_eq!(Pca::decode(&second.pca).unwrap().sequence, 2);
    let expired = transition_at(
        &manager,
        &TransitionRequest { pca: root.clone(), prior_pca: vec![] },
        9999,
        50,
    );
    assert!(expired.pca.is_empty());
    assert_eq!(expired.error, "invalid: PCA is expired");
    let mut altered = ok.pca.clone();
    let last = altered.len() - 1;
    altered[last] ^= 1;
    let forged = transition_at(
        &manager,
        &TransitionRequest { pca: altered, prior_pca: root.clone() },
        1100,
        50,
    );
    assert!(forged.pca.is_empty());
    assert_eq!(forged.error, "crypto error");
    // the current clock is far past an expiry of 1300
    let now = transition_now(&manager, &TransitionRequest { pca: root, prior_pca: vec![] });
    assert!(now.pca.is_empty());
    assert_eq!(now.error, "invalid: PCA is expired");
}

#[test]
fn minted_pcas_are_well_placed() {
    let manager = engine_manager();
    let root = engine_root(&manager, 1000);
    assert!(Pca::decode(&root).unwrap().is_well_placed());
    let next = transition(&manager, &root, None, 1100, 50).unwrap();
    assert!(Pca::decode(&next).unwrap().is_well_placed());
    let odd = signed_by_manager(&manager, 0, Predecessor::Hash(vec![0u8; 32]));
    assert!(!Pca::decode(&odd).unwrap().is_well_placed());
    let orphan = signed_by_manager(&manager, 2, Predecessor::Root);
    assert!(!Pca::decode(&orphan).unwrap().is_well_placed());
}
