//! Credential providers: where the Trust Plane's credentials come from.

use vstd::prelude::*;
use vstd::string::*;
use crate::bridge::random_uuid;
use crate::clock::{current_rfc3339, current_year_month, period, period_text};
use crate::credentials::did::{
    document_of, document_wf, lemma_document_of_wf, DidDocument, DidDocumentView,
};
use crate::credentials::keys::{jwk_fault, jwk_import, Jwk, JwkView, KeyPair, KeyPairView};
use crate::credentials::{
    proof_accepted, signed_credential, CredentialSubject, CredentialSubjectView, CredentialsView,
    SelfCredential, SelfCredentialView, TrustPlaneCredentials,
};
use crate::error::{Error, ErrorKind};
use crate::text::join2;

verus! {

/// A source of credentials. `load` gives credentials that are sound: each
/// public key belongs to its private key, and the identity document names
/// no method that it lacks.
pub trait CredentialProvider {
    /// Loads the credentials.
    fn load(&self) -> (out: Result<TrustPlaneCredentials, Error>)
        ensures
            out matches Ok(c) ==> c.wf(),
    ;
}

/// In-memory provider: generates fresh keys at every load and keeps
/// nothing.
#[derive(Debug)]
pub struct InMemoryProvider {
    pub did: String,
    pub organization: String,
}

/// File provider: where the key files, the identity document and the
/// self-issued credential are kept.
#[derive(Debug)]
pub struct FileProvider {
    pub issuer_key_path: String,
    pub cat_key_path: String,
    pub did_doc_path: String,
    pub credential_path: String,
}

/// The identifier of the issuer key of `did` for the period `period`.
pub open spec fn issuer_kid_of(did: Seq<char>, period: Seq<char>) -> Seq<char> {
    did + "#issuer-key-"@ + period
}

/// The identifier of the CAT key of `did` for the period `period`.
pub open spec fn cat_kid_of(did: Seq<char>, period: Seq<char>) -> Seq<char> {
    did + "#cat-key-"@ + period
}

/// The claim set of the self-issued credential of `did` for
/// `organization`, with the identifier `uuid` and the date of issue
/// `issued_at`; it carries no proof yet.
pub open spec fn self_claims_of(
    did: Seq<char>,
    organization: Seq<char>,
    uuid: Seq<char>,
    issued_at: Seq<char>,
) -> SelfCredentialView {
    SelfCredentialView {
        context: seq![
            "https://www.w3.org/2018/credentials/v1"@,
            "https://permguard.com/credentials/v1"@,
        ],
        id: "urn:uuid:"@ + uuid,
        types: seq!["VerifiableCredential"@, "TrustPlaneCredential"@],
        issuer: did,
        issuance_date: issued_at,
        subject: CredentialSubjectView {
            id: did,
            subject_type: "TrustPlane"@,
            organization: Some(organization),
        },
        proof: None,
    }
}

/// The self-issued credential of `did` for `organization`: its claim set,
/// signed with the issuer key.
pub open spec fn self_credential_of(
    did: Seq<char>,
    organization: Seq<char>,
    issuer_key: KeyPairView,
    uuid: Seq<char>,
    issued_at: Seq<char>,
) -> SelfCredentialView {
    signed_credential(self_claims_of(did, organization, uuid, issued_at), issuer_key)
}

/// The credentials that the in-memory provider puts together from two
/// keys, an identifier for the credential and a date of issue.
pub open spec fn assembled(
    did: Seq<char>,
    organization: Seq<char>,
    issuer_key: KeyPairView,
    cat_key: KeyPairView,
    uuid: Seq<char>,
    issued_at: Seq<char>,
) -> CredentialsView {
    CredentialsView {
        did,
        organization,
        issuer_key,
        cat_key,
        did_document: document_of(did, issuer_key, cat_key),
        credential: self_credential_of(did, organization, issuer_key, uuid, issued_at),
    }
}

/// Creates the self-issued credential of a Trust Plane: the claim set that
/// binds `did` to `organization`, signed with the issuer key.
pub fn create_self_credential(
    did: &str,
    organization: &str,
    issuer_key: &KeyPair,
    uuid: &str,
    issued_at: &str,
) -> (out: SelfCredential)
    ensures
        out@ == self_credential_of(did@, organization@, issuer_key@, uuid@, issued_at@),
        issuer_key.wf() ==> proof_accepted(out@, issuer_key@.public),
{
    let mut context: Vec<String> = Vec::new();
    context.push(String::from_str("https://www.w3.org/2018/credentials/v1"));
    context.push(String::from_str("https://permguard.com/credentials/v1"));
    let mut types: Vec<String> = Vec::new();
    types.push(String::from_str("VerifiableCredential"));
    types.push(String::from_str("TrustPlaneCredential"));
    let claims = SelfCredential {
        context,
        id: join2("urn:uuid:", uuid),
        types,
        issuer: String::from_str(did),
        issuance_date: String::from_str(issued_at),
        subject: CredentialSubject {
            id: String::from_str(did),
            subject_type: String::from_str("TrustPlane"),
            organization: Some(String::from_str(organization)),
        },
        proof: None,
    };
    proof {
        let want = self_claims_of(did@, organization@, uuid@, issued_at@);
        assert(claims@.context =~= want.context);
        assert(claims@.types =~= want.types);
        assert(claims@ == want);
    }
    claims.sign(issuer_key)
}

impl InMemoryProvider {
    /// Puts credentials together from two keys, an identifier for the
    /// self-issued credential and a date of issue.
    pub fn assemble(&self, issuer_key: KeyPair, cat_key: KeyPair, uuid: &str, issued_at: &str) -> (out:
        TrustPlaneCredentials)
        requires
            issuer_key.wf(),
            cat_key.wf(),
        ensures
            out.wf(),
            out.keys_bound(),
            proof_accepted(out@.credential, out@.issuer_key.public),
            out@ == assembled(
                self.did@,
                self.organization@,
                issuer_key@,
                cat_key@,
                uuid@,
                issued_at@,
            ),
    {
        let did_document = DidDocument::new(self.did.as_str(), &issuer_key, &cat_key);
        let credential = create_self_credential(
            self.did.as_str(),
            self.organization.as_str(),
            &issuer_key,
            uuid,
            issued_at,
        );
        proof {
            lemma_document_of_wf(self.did@, issuer_key@, cat_key@);
        }
        TrustPlaneCredentials {
            did: self.did.clone(),
            organization: self.organization.clone(),
            issuer_key,
            cat_key,
            did_document,
            credential,
        }
    }
}

impl CredentialProvider for InMemoryProvider {
    /// Generates an issuer key and a CAT key, named after the identity and
    /// the period of some date, which the system clock decides, and puts
    /// credentials together from them. Always succeeds.
    fn load(&self) -> (out: Result<TrustPlaneCredentials, Error>)
        ensures
            out is Ok,
            out->Ok_0@.did == self.did@,
            out->Ok_0@.organization == self.organization@,
            out->Ok_0@.did_document == document_of(
                self.did@,
                out->Ok_0@.issuer_key,
                out->Ok_0@.cat_key,
            ),
            exists|year: i32, month: u32|
                out->Ok_0@.issuer_key.kid == issuer_kid_of(
                    self.did@,
                    #[trigger] period_text(year, month),
                ) && out->Ok_0@.cat_key.kid == cat_kid_of(self.did@, period_text(year, month)),
            out->Ok_0.keys_bound(),
            proof_accepted(out->Ok_0@.credential, out->Ok_0@.issuer_key.public),
            exists|uuid: Seq<char>, issued_at: Seq<char>|
                out->Ok_0@.credential == #[trigger] self_credential_of(
                    self.did@,
                    self.organization@,
                    out->Ok_0@.issuer_key,
                    uuid,
                    issued_at,
                ),
    {
        let (year, month) = current_year_month();
        let period = period(year, month);
        let issuer_kid = join2(join2(self.did.as_str(), "#issuer-key-").as_str(), period.as_str());
        let cat_kid = join2(join2(self.did.as_str(), "#cat-key-").as_str(), period.as_str());
        let issuer_key = KeyPair::generate(issuer_kid.as_str());
        let cat_key = KeyPair::generate(cat_kid.as_str());
        let uuid = random_uuid();
        let issued_at = current_rfc3339();
        let out = self.assemble(issuer_key, cat_key, uuid.as_str(), issued_at.as_str());
        proof {
            assert(out@.issuer_key.kid == issuer_kid_of(self.did@, period_text(year, month)));
            assert(out@.cat_key.kid == cat_kid_of(self.did@, period_text(year, month)));
            assert(out@.credential == self_credential_of(
                self.did@,
                self.organization@,
                out@.issuer_key,
                uuid@,
                issued_at@,
            ));
        }
        Ok(out)
    }
}

/// The organization that credentials loaded from files stand for: the one
/// that the self-issued credential names, or "Unknown".
pub open spec fn organization_of(credential: SelfCredentialView) -> Seq<char> {
    match credential.subject.organization {
        Some(o) => o,
        None => "Unknown"@,
    }
}

/// Why credentials are not put together from what the files held; nothing
/// where they are. The issuer key is looked at first, then the CAT key,
/// then the identity document, which may name no method that it lacks.
pub open spec fn file_fault(issuer_jwk: JwkView, cat_jwk: JwkView, d: DidDocumentView) -> Option<
    (ErrorKind, Seq<char>),
> {
    if jwk_import(issuer_jwk) is None {
        Some((ErrorKind::Crypto, jwk_fault(issuer_jwk)))
    } else if jwk_import(cat_jwk) is None {
        Some((ErrorKind::Crypto, jwk_fault(cat_jwk)))
    } else if !document_wf(d) {
        Some((ErrorKind::Invalid, "identity document names a method that it lacks"@))
    } else {
        None
    }
}

impl FileProvider {
    /// Puts credentials together from what the four files held: the two
    /// private keys as JWKs, the identity document and the self-issued
    /// credential. The identity is that of the document.
    ///
    /// Succeeds whenever both keys can be imported and the document names
    /// no method that it lacks; whether the document holds the keys is not
    /// asked. Fails with `Crypto` where a key cannot be imported, and with
    /// `Invalid` where the document names a method that it lacks.
    pub fn assemble(
        issuer_jwk: &Jwk,
        cat_jwk: &Jwk,
        did_document: DidDocument,
        credential: SelfCredential,
    ) -> (out: Result<TrustPlaneCredentials, Error>)
        ensures
            match out {
                Ok(c) => file_fault(issuer_jwk@, cat_jwk@, did_document@) is None && c.wf() && c@
                    == (CredentialsView {
                    did: did_document@.id,
                    organization: organization_of(credential@),
                    issuer_key: jwk_import(issuer_jwk@)->Some_0,
                    cat_key: jwk_import(cat_jwk@)->Some_0,
                    did_document: did_document@,
                    credential: credential@,
                }),
                Err(e) => file_fault(issuer_jwk@, cat_jwk@, did_document@) == Some(
                    (e.spec_kind(), e.detail()),
                ),
            },
    {
        let issuer_key = KeyPair::from_jwk(issuer_jwk)?;
        let cat_key = KeyPair::from_jwk(cat_jwk)?;
        let did = did_document.id.clone();
        let organization = match &credential.subject.organization {
            Some(o) => o.clone(),
            None => String::from_str("Unknown"),
        };
        let out = TrustPlaneCredentials {
            did,
            organization,
            issuer_key,
            cat_key,
            did_document,
            credential,
        };
        if !out.did_document.is_well_formed() {
            return Err(
                Error::Invalid(String::from_str("identity document names a method that it lacks")),
            );
        }
        Ok(out)
    }
}

} // verus!
