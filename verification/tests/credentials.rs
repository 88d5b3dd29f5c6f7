use permguard_trustplane::credentials::did::{DidDocument, VerificationMethod};
use permguard_trustplane::credentials::keys::{Jwk, KeyPair};
use permguard_trustplane::credentials::provider::{
    create_self_credential, CredentialProvider, FileProvider, InMemoryProvider,
};
use permguard_trustplane::credentials::{
    CredentialProof, CredentialSubject, CredentialsManager, KeyHistory, SelfCredential,
    TrustPlaneCredentials, Watcher, DEFAULT_HISTORY,
};
use permguard_trustplane::error::{Error, ErrorKind};

fn provider(did: &str, organization: &str) -> InMemoryProvider {
    InMemoryProvider { did: did.to_string(), organization: organization.to_string() }
}

fn creds_with(did: &str, organization: &str, tag: &str) -> TrustPlaneCredentials {
    let issuer = KeyPair::generate(&format!("{}#issuer-{}", did, tag));
    let cat = KeyPair::generate(&format!("{}#cat-{}", did, tag));
    provider(did, organization).assemble(issuer, cat, "uuid", "2026-01-01T00:00:00+00:00")
}

#[test]
fn did_document_binds_both_keys() {
    let issuer = KeyPair::generate("did:web:tp#issuer");
    let cat = KeyPair::generate("did:web:tp#cat");
    let doc = DidDocument::new("did:web:tp", &issuer, &cat);
    assert_eq!(
        doc.context,
        vec![
            "https://www.w3.org/ns/did/v1".to_string(),
            "https://w3id.org/security/suites/ed25519-2020/v1".to_string()
        ]
    );
    assert_eq!(doc.id, "did:web:tp");
    assert_eq!(doc.verification_method.len(), 2);
    assert_eq!(doc.verification_method[0].id, "did:web:tp#issuer");
    assert_eq!(doc.verification_method[0].method_type, "Ed25519VerificationKey2020");
    assert_eq!(doc.verification_method[0].controller, "did:web:tp");
    assert_eq!(doc.verification_method[0].public_key_jwk.x, issuer.public_jwk().x);
    assert_eq!(doc.verification_method[0].public_key_jwk.d, None);
    assert_eq!(doc.verification_method[1].id, "did:web:tp#cat");
    assert_eq!(doc.verification_method[1].public_key_jwk.x, cat.public_jwk().x);
    assert_eq!(doc.assertion_method, vec!["did:web:tp#issuer".to_string(), "did:web:tp#cat".to_string()]);
    assert_eq!(doc.authentication, doc.assertion_method);
    assert!(doc.is_well_formed());
    assert!(doc.holds_method("did:web:tp#cat"));
    assert!(!doc.holds_method("did:web:tp#other"));
    assert!(doc.holds_controlled_method("did:web:tp#cat", "did:web:tp"));
    assert!(!doc.holds_controlled_method("did:web:tp#cat", "did:web:other"));
    let copy = doc.clone();
    assert_eq!(copy.id, doc.id);
    assert_eq!(copy.verification_method.len(), 2);
}

#[test]
fn document_that_names_a_missing_method_is_not_well_formed() {
    let issuer = KeyPair::generate("i");
    let cat = KeyPair::generate("c");
    let mut doc = DidDocument::new("did", &issuer, &cat);
    doc.authentication.push("ghost".to_string());
    assert!(!doc.is_well_formed());
    doc.authentication.pop();
    assert!(doc.is_well_formed());
    doc.assertion_method.insert(0, "ghost".to_string());
    assert!(!doc.is_well_formed());
    doc.verification_method.push(VerificationMethod {
        id: "ghost".to_string(),
        method_type: "Ed25519VerificationKey2020".to_string(),
        controller: "did".to_string(),
        public_key_jwk: cat.public_jwk(),
    });
    assert!(doc.is_well_formed());
    doc.verification_method.clear();
    assert!(!doc.is_well_formed());
    doc.assertion_method.clear();
    doc.authentication.clear();
    assert!(doc.is_well_formed());
}

#[test]
fn self_credential_has_the_fixed_form() {
    let issuer = KeyPair::generate("did:web:tp#issuer");
    let c = create_self_credential("did:web:tp", "Acme", &issuer, "1234", "2026-02-03T04:05:06+00:00");
    assert_eq!(
        c.context,
        vec![
            "https://www.w3.org/2018/credentials/v1".to_string(),
            "https://permguard.com/credentials/v1".to_string()
        ]
    );
    assert_eq!(c.id, "urn:uuid:1234");
    assert_eq!(c.types, vec!["VerifiableCredential".to_string(), "TrustPlaneCredential".to_string()]);
    assert_eq!(c.issuer, "did:web:tp");
    assert_eq!(c.issuance_date, "2026-02-03T04:05:06+00:00");
    assert_eq!(c.subject.id, "did:web:tp");
    assert_eq!(c.subject.subject_type, "TrustPlane");
    assert_eq!(c.subject.organization, Some("Acme".to_string()));
    let proof = c.proof.as_ref().unwrap();
    assert_eq!(proof.verification_method, "did:web:tp#issuer");
    assert_eq!(proof.signature, issuer.sign(&c.claim_bytes()));
}

#[test]
fn self_credential_is_signed_over_its_claim_set() {
    let issuer = KeyPair::generate("i");
    let other = KeyPair::generate("o");
    let c = create_self_credential("d", "Acme", &issuer, "u", "t");
    assert!(c.is_signed_by(&issuer.public_key_bytes()));
    assert!(!c.is_signed_by(&other.public_key_bytes()));
    // any claim that is altered undoes the proof
    let mut altered = c.clone();
    altered.subject.organization = Some("Other".to_string());
    assert!(!altered.is_signed_by(&issuer.public_key_bytes()));
    let mut altered = c.clone();
    altered.subject.organization = None;
    assert!(!altered.is_signed_by(&issuer.public_key_bytes()));
    let mut altered = c.clone();
    altered.types.pop();
    assert!(!altered.is_signed_by(&issuer.public_key_bytes()));
    let mut altered = c.clone();
    altered.issuer.push('x');
    assert!(!altered.is_signed_by(&issuer.public_key_bytes()));
    // a proof made anew stands again
    assert!(altered.clone().sign(&other).is_signed_by(&other.public_key_bytes()));
    let mut unsigned = c.clone();
    unsigned.proof = None;
    assert!(!unsigned.is_signed_by(&issuer.public_key_bytes()));
    let mut forged = c.clone();
    forged.proof = Some(CredentialProof { verification_method: "i".to_string(), signature: vec![0; 64] });
    assert!(!forged.is_signed_by(&issuer.public_key_bytes()));
}

#[test]
fn claim_set_bytes_are_exact() {
    let c = SelfCredential {
        context: vec!["a".to_string()],
        id: "é".to_string(),
        types: vec![],
        issuer: String::new(),
        issuance_date: "t".to_string(),
        subject: CredentialSubject {
            id: "s".to_string(),
            subject_type: "k".to_string(),
            organization: Some("o".to_string()),
        },
        proof: None,
    };
    let mut want: Vec<u8> = vec![];
    want.extend([1, 0, 0, 0, 0, 0, 0, 0]);
    want.extend([1, 0, 0, 0, 0, 0, 0, 0, b'a']);
    want.extend([2, 0, 0, 0, 0, 0, 0, 0, 0xc3, 0xa9]);
    want.extend([0, 0, 0, 0, 0, 0, 0, 0]);
    want.extend([0, 0, 0, 0, 0, 0, 0, 0]);
    want.extend([1, 0, 0, 0, 0, 0, 0, 0, b't']);
    want.extend([1, 0, 0, 0, 0, 0, 0, 0, b's']);
    want.extend([1, 0, 0, 0, 0, 0, 0, 0, b'k']);
    want.extend([1, 1, 0, 0, 0, 0, 0, 0, 0, b'o']);
    assert_eq!(c.claim_bytes(), want);
    let mut without = c.clone();
    without.subject.organization = None;
    let mut want_without = want[..want.len() - 10].to_vec();
    want_without.push(0);
    assert_eq!(without.claim_bytes(), want_without);
    // the proof is no part of what it signs
    let signed = c.clone().sign(&KeyPair::generate("k"));
    assert_eq!(signed.claim_bytes(), want);
}

#[test]
fn in_memory_provider_generates_fresh_sound_credentials() {
    let p = provider("did:web:tp.example.com", "Acme");
    let a = p.load().unwrap();
    let b = p.load().unwrap();
    assert_eq!(a.did, "did:web:tp.example.com");
    assert_eq!(a.organization, "Acme");
    assert!(a.is_consistent());
    let issuer_kid = a.issuer_key.kid().to_string();
    let cat_kid = a.cat_key.kid().to_string();
    let period = issuer_kid.strip_prefix("did:web:tp.example.com#issuer-key-").unwrap();
    assert_eq!(period.len(), 6);
    assert!(period.bytes().all(|b| b.is_ascii_digit()));
    assert!(period >= "202401");
    let month: u32 = period[4..].parse().unwrap();
    assert!((1..=12).contains(&month));
    assert_eq!(cat_kid, format!("did:web:tp.example.com#cat-key-{}", period));
    assert_eq!(a.did_document.id, a.did);
    assert_eq!(a.did_document.verification_method[0].id, issuer_kid);
    assert_eq!(a.did_document.verification_method[1].id, cat_kid);
    assert_eq!(a.credential.issuer, a.did);
    assert_eq!(a.credential.subject.organization, Some("Acme".to_string()));
    assert!(a.credential.is_signed_by(&a.issuer_key.public_key_bytes()));
    assert!(!a.credential.is_signed_by(&a.cat_key.public_key_bytes()));
    assert_eq!(a.credential.proof.as_ref().unwrap().verification_method, issuer_kid);
    let uuid = a.credential.id.strip_prefix("urn:uuid:").unwrap();
    assert_eq!(uuid.len(), 36);
    assert!(a.credential.issuance_date.starts_with("20"));
    assert!(a.credential.issuance_date.contains('T'));
    assert_ne!(a.cat_key.private_key_bytes(), b.cat_key.private_key_bytes());
    assert_ne!(a.issuer_key.private_key_bytes(), a.cat_key.private_key_bytes());
    assert_ne!(a.credential.id, b.credential.id);
}

fn file_parts() -> (Jwk, Jwk, DidDocument, SelfCredential) {
    let issuer = KeyPair::generate("did:web:tp#issuer");
    let cat = KeyPair::generate("did:web:tp#cat");
    let doc = DidDocument::new("did:web:tp", &issuer, &cat);
    let credential = create_self_credential("did:web:tp", "Acme", &issuer, "u", "t");
    (issuer.private_jwk(), cat.private_jwk(), doc, credential)
}

fn file_fault(r: Result<TrustPlaneCredentials, Error>) -> (ErrorKind, String) {
    match r {
        Ok(_) => panic!("the credentials were put together"),
        Err(e) => {
            let kind = e.kind();
            match e {
                Error::Crypto(m) | Error::Invalid(m) => (kind, m),
                _ => panic!("unexpected error"),
            }
        }
    }
}

#[test]
fn file_provider_puts_credentials_together() {
    let (issuer, cat, doc, credential) = file_parts();
    let creds = FileProvider::assemble(&issuer, &cat, doc, credential).unwrap();
    assert_eq!(creds.did, "did:web:tp");
    assert_eq!(creds.organization, "Acme");
    assert_eq!(creds.issuer_key.kid(), "did:web:tp#issuer");
    assert_eq!(creds.cat_key.kid(), "did:web:tp#cat");
    assert_eq!(creds.cat_key.public_jwk().x, cat.x);
    assert!(creds.is_consistent());
    let copy = creds.clone();
    assert_eq!(copy.cat_key.private_key_bytes(), creds.cat_key.private_key_bytes());
    assert_eq!(copy.credential.id, "urn:uuid:u");
    let paths = FileProvider {
        issuer_key_path: "issuer.jwk".to_string(),
        cat_key_path: "cat.jwk".to_string(),
        did_doc_path: "did.json".to_string(),
        credential_path: "credential.json".to_string(),
    };
    assert_eq!(paths.did_doc_path, "did.json");
}

#[test]
fn file_provider_falls_back_to_unknown_organization() {
    let (issuer, cat, doc, _) = file_parts();
    let credential = SelfCredential {
        context: vec![],
        id: String::new(),
        types: vec![],
        issuer: String::new(),
        issuance_date: String::new(),
        subject: CredentialSubject { id: String::new(), subject_type: String::new(), organization: None },
        proof: None,
    };
    let creds = FileProvider::assemble(&issuer, &cat, doc, credential).unwrap();
    assert_eq!(creds.organization, "Unknown");
}

fn bare_jwk(kid: &str, d: &str) -> Jwk {
    Jwk {
        kty: String::new(),
        crv: String::new(),
        x: String::new(),
        d: Some(d.to_string()),
        kid: Some(kid.to_string()),
    }
}

#[test]
fn file_provider_loads_a_document_without_methods() {
    let issuer = bare_jwk("did:web:x#i", "AAAAAAAAAAAAAAAAAAAAAAAAAAAAAAAAAAAAAAAAAAA");
    let cat = bare_jwk("did:web:x#c", "AQAAAAAAAAAAAAAAAAAAAAAAAAAAAAAAAAAAAAAAAAA");
    let document = DidDocument {
        context: vec![],
        id: "did:web:x".to_string(),
        verification_method: vec![],
        assertion_method: vec![],
        authentication: vec![],
    };
    let credential = SelfCredential {
        context: vec![],
        id: String::new(),
        types: vec![],
        issuer: String::new(),
        issuance_date: String::new(),
        subject: CredentialSubject { id: String::new(), subject_type: String::new(), organization: None },
        proof: None,
    };
    let c = FileProvider::assemble(&issuer, &cat, document, credential).unwrap();
    assert_eq!(c.did, "did:web:x");
    assert_eq!(c.organization, "Unknown");
    assert_eq!(c.issuer_key.kid(), "did:web:x#i");
    assert_eq!(c.issuer_key.private_key_bytes(), [0u8; 32]);
    assert_eq!(c.cat_key.kid(), "did:web:x#c");
    let mut cat_secret = [0u8; 32];
    cat_secret[0] = 1;
    assert_eq!(c.cat_key.private_key_bytes(), cat_secret);
    assert!(c.credential.context.is_empty());
    assert!(c.credential.proof.is_none());
    assert_eq!(c.credential.subject.organization, None);
    assert!(c.is_sound());
    assert!(!c.is_consistent());
    // such credentials start a manager
    let manager = CredentialsManager::try_new(c).unwrap();
    assert_eq!(manager.current().did, "did:web:x");
}

#[test]
fn file_provider_names_what_is_wrong() {
    let (issuer, cat, doc, credential) = file_parts();
    let mut public_only = issuer.clone();
    public_only.d = None;
    assert_eq!(
        file_fault(FileProvider::assemble(&public_only, &cat, doc.clone(), credential.clone())),
        (ErrorKind::Crypto, "Missing private key (d) in JWK".to_string())
    );
    let mut nameless = cat.clone();
    nameless.kid = None;
    assert_eq!(
        file_fault(FileProvider::assemble(&issuer, &nameless, doc.clone(), credential.clone())),
        (ErrorKind::Crypto, "Missing kid in JWK".to_string())
    );
    // the issuer key is looked at first
    assert_eq!(
        file_fault(FileProvider::assemble(&public_only, &nameless, doc.clone(), credential.clone())),
        (ErrorKind::Crypto, "Missing private key (d) in JWK".to_string())
    );
    // a document of other keys, or one in which another identity controls
    // the CAT key, is loaded: whether the document holds the keys is not asked
    let other = DidDocument::new("did:web:tp", &KeyPair::generate("x"), &KeyPair::generate("y"));
    let loaded = FileProvider::assemble(&issuer, &cat, other, credential.clone()).unwrap();
    assert!(loaded.is_sound());
    assert!(!loaded.is_consistent());
    let mut foreign = doc.clone();
    foreign.verification_method[1].controller = "did:web:elsewhere".to_string();
    let loaded = FileProvider::assemble(&issuer, &cat, foreign, credential.clone()).unwrap();
    assert!(loaded.is_sound());
    assert!(!loaded.is_consistent());
    let mut dangling = doc.clone();
    dangling.authentication.push("ghost".to_string());
    assert_eq!(
        file_fault(FileProvider::assemble(&issuer, &cat, dangling, credential)),
        (ErrorKind::Invalid, "identity document names a method that it lacks".to_string())
    );
}

#[test]
fn snapshot_taken_before_an_update_stays_whole() {
    let mut manager = CredentialsManager::new(creds_with("did:web:tp", "Acme", "1"));
    let before = manager.current();
    let secret = before.cat_key.private_key_bytes();
    manager.update(creds_with("did:web:tp", "Acme Two", "2"));
    assert_eq!(before.did, "did:web:tp");
    assert_eq!(before.organization, "Acme");
    assert_eq!(before.cat_key.kid(), "did:web:tp#cat-1");
    assert_eq!(before.issuer_key.kid(), "did:web:tp#issuer-1");
    assert_eq!(before.cat_key.private_key_bytes(), secret);
    assert_eq!(before.did_document.verification_method[1].id, "did:web:tp#cat-1");
    assert!(before.is_consistent());
    let after = manager.current();
    assert_eq!(after.organization, "Acme Two");
    assert_eq!(after.cat_key.kid(), "did:web:tp#cat-2");
    assert!(after.is_consistent());
}

#[test]
fn manager_resolves_current_and_retired_keys() {
    let mut manager = CredentialsManager::with_history(creds_with("d", "o", "1"), 2);
    let k1 = manager.current().cat_key.public_key_bytes();
    assert_eq!(manager.resolve("d#cat-1"), Some(k1));
    assert_eq!(manager.resolve("d#issuer-1"), None);
    assert_eq!(manager.resolve("d#cat-2"), None);
    manager.update(creds_with("d", "o", "2"));
    let k2 = manager.current().cat_key.public_key_bytes();
    assert_eq!(manager.resolve("d#cat-1"), Some(k1));
    assert_eq!(manager.resolve("d#cat-2"), Some(k2));
    manager.update(creds_with("d", "o", "3"));
    manager.update(creds_with("d", "o", "4"));
    // room for two retired keys: the oldest has left
    assert_eq!(manager.resolve("d#cat-1"), None);
    assert_eq!(manager.resolve("d#cat-2"), Some(k2));
    assert!(manager.resolve("d#cat-3").is_some());
    assert!(manager.resolve("d#cat-4").is_some());
}

#[test]
fn key_history_keeps_the_latest_within_its_bound() {
    let mut history = KeyHistory::new(3);
    assert_eq!(history.len(), 0);
    assert_eq!(history.resolve("a"), None);
    history.retire("a".to_string(), [1; 32]);
    history.retire("b".to_string(), [2; 32]);
    history.retire("a".to_string(), [3; 32]);
    assert_eq!(history.len(), 3);
    assert_eq!(history.resolve("a"), Some([3; 32]));
    assert_eq!(history.resolve("b"), Some([2; 32]));
    history.retire("c".to_string(), [4; 32]);
    assert_eq!(history.len(), 3);
    assert_eq!(history.resolve("a"), Some([3; 32]));
    history.retire("d".to_string(), [5; 32]);
    assert_eq!(history.resolve("b"), None);
    history.retire("e".to_string(), [6; 32]);
    assert_eq!(history.resolve("a"), None);
    assert_eq!(history.resolve("e"), Some([6; 32]));
    let mut none = KeyHistory::new(0);
    none.retire("a".to_string(), [1; 32]);
    assert_eq!(none.len(), 0);
    assert_eq!(none.resolve("a"), None);
    assert_eq!(DEFAULT_HISTORY, 16);
}

#[test]
fn watcher_sees_only_the_latest_snapshot() {
    let mut manager = CredentialsManager::new(creds_with("d", "o", "1"));
    let mut early = manager.subscribe();
    assert_eq!(early, Watcher { seen: None });
    assert_eq!(manager.poll(&mut early).unwrap().cat_key.kid(), "d#cat-1");
    assert!(manager.poll(&mut early).is_none());
    manager.update(creds_with("d", "o", "2"));
    manager.update(creds_with("d", "o", "3"));
    // the snapshot in between is never delivered
    assert_eq!(manager.poll(&mut early).unwrap().cat_key.kid(), "d#cat-3");
    assert!(manager.poll(&mut early).is_none());
    // a late joiner gets the latest at once
    let mut late = manager.subscribe();
    assert_eq!(manager.poll(&mut late).unwrap().cat_key.kid(), "d#cat-3");
    assert!(manager.poll(&mut late).is_none());
    assert_eq!(late, early);
}

#[test]
fn watch_failure_leaves_the_last_good_snapshot() {
    let mut manager = CredentialsManager::new(creds_with("d", "o", "1"));
    let mut watcher = manager.subscribe();
    manager.poll(&mut watcher);
    assert!(!manager.apply(Err(Error::Invalid("unreadable".to_string()))));
    assert_eq!(manager.current().cat_key.kid(), "d#cat-1");
    assert!(manager.poll(&mut watcher).is_none());
    assert!(manager.apply(Ok(creds_with("d", "o", "2"))));
    assert_eq!(manager.current().cat_key.kid(), "d#cat-2");
    assert!(manager.poll(&mut watcher).is_some());
}

struct FailingProvider;

impl CredentialProvider for FailingProvider {
    fn load(&self) -> Result<TrustPlaneCredentials, Error> {
        Err(Error::Config("no credentials".to_string()))
    }
}

#[test]
fn manager_starts_from_what_the_provider_loads() {
    let manager = CredentialsManager::from_provider(&provider("did:web:tp", "Acme")).unwrap();
    assert_eq!(manager.current().did, "did:web:tp");
    assert!(manager.current().is_consistent());
    match CredentialsManager::from_provider(&FailingProvider) {
        Err(Error::Config(m)) => assert_eq!(m, "no credentials"),
        _ => panic!("a manager was made of nothing"),
    }
}

#[test]
fn unsound_credentials_never_become_a_snapshot() {
    let sound = creds_with("d", "o", "1");
    assert!(sound.is_sound());
    assert!(sound.is_consistent());
    assert!(sound.cat_key.is_sound());
    let mut dangling = creds_with("d", "o", "2");
    dangling.did_document.authentication.push("ghost".to_string());
    assert!(dangling.cat_key.is_sound());
    assert!(!dangling.is_sound());
    assert!(!dangling.is_consistent());
    match CredentialsManager::try_new(dangling.clone()) {
        Err(Error::Invalid(m)) => assert_eq!(m, "credentials are not sound"),
        _ => panic!("unsound credentials became a snapshot"),
    }
    let mut manager = CredentialsManager::try_new(sound).unwrap();
    let mut watcher = manager.subscribe();
    manager.poll(&mut watcher);
    match manager.try_update(dangling.clone()) {
        Err(e) => assert_eq!(e.kind(), ErrorKind::Invalid),
        Ok(_) => panic!("unsound credentials became a snapshot"),
    }
    assert!(!manager.apply(Ok(dangling)));
    assert_eq!(manager.current().cat_key.kid(), "d#cat-1");
    assert!(manager.poll(&mut watcher).is_none());
    // credentials of another identity than their document's are sound
    let mut elsewhere = creds_with("d", "o", "3");
    elsewhere.did = "did:web:elsewhere".to_string();
    assert!(elsewhere.is_sound());
    assert!(!elsewhere.is_consistent());
    manager.try_update(elsewhere).unwrap();
    assert_eq!(manager.current().cat_key.kid(), "d#cat-3");
    assert!(manager.resolve("d#cat-1").is_some());
}

#[test]
fn replace_hands_back_the_old_snapshot_unaltered() {
    let mut manager = CredentialsManager::new(creds_with("d", "Acme", "1"));
    let secret = manager.current().cat_key.private_key_bytes();
    let old = manager.replace(creds_with("d", "Acme Two", "2"));
    assert_eq!(old.organization, "Acme");
    assert_eq!(old.cat_key.kid(), "d#cat-1");
    assert_eq!(old.cat_key.private_key_bytes(), secret);
    assert!(old.is_sound());
    assert!(old.credential.is_signed_by(&old.issuer_key.public_key_bytes()));
    assert_eq!(manager.current().organization, "Acme Two");
    assert_eq!(manager.current().cat_key.kid(), "d#cat-2");
    assert_eq!(manager.resolve("d#cat-1"), Some(old.cat_key.public_key_bytes()));
    let mut watcher = manager.subscribe();
    assert_eq!(manager.poll(&mut watcher).unwrap().cat_key.kid(), "d#cat-2");
    manager.replace(creds_with("d", "Acme", "3"));
    assert_eq!(manager.poll(&mut watcher).unwrap().cat_key.kid(), "d#cat-3");
}
