//! Identity documents: the binding of a Trust Plane identity to its
//! current public keys.

use vstd::prelude::*;
use vstd::string::*;
use crate::credentials::keys::{public_jwk_of, Jwk, JwkView, KeyPair, KeyPairView};
use crate::text::{clone_strings, str_eq};

verus! {

/// One public key of an identity.
#[derive(Debug)]
pub struct VerificationMethod {
    pub id: String,
    pub method_type: String,
    pub controller: String,
    pub public_key_jwk: Jwk,
}

/// Identity document.
#[derive(Debug)]
pub struct DidDocument {
    pub context: Vec<String>,
    pub id: String,
    pub verification_method: Vec<VerificationMethod>,
    pub assertion_method: Vec<String>,
    pub authentication: Vec<String>,
}

/// The mathematical form of a verification method.
pub ghost struct VerificationMethodView {
    pub id: Seq<char>,
    pub method_type: Seq<char>,
    pub controller: Seq<char>,
    pub public_key_jwk: JwkView,
}

/// The mathematical form of an identity document.
pub ghost struct DidDocumentView {
    pub context: Seq<Seq<char>>,
    pub id: Seq<char>,
    pub verification_method: Seq<VerificationMethodView>,
    pub assertion_method: Seq<Seq<char>>,
    pub authentication: Seq<Seq<char>>,
}

impl View for VerificationMethod {
    type V = VerificationMethodView;

    open spec fn view(&self) -> VerificationMethodView {
        VerificationMethodView {
            id: self.id@,
            method_type: self.method_type@,
            controller: self.controller@,
            public_key_jwk: self.public_key_jwk@,
        }
    }
}

impl DeepView for VerificationMethod {
    type V = VerificationMethodView;

    open spec fn deep_view(&self) -> VerificationMethodView {
        self.view()
    }
}

impl View for DidDocument {
    type V = DidDocumentView;

    open spec fn view(&self) -> DidDocumentView {
        DidDocumentView {
            context: self.context.deep_view(),
            id: self.id@,
            verification_method: self.verification_method.deep_view(),
            assertion_method: self.assertion_method.deep_view(),
            authentication: self.authentication.deep_view(),
        }
    }
}

impl Clone for VerificationMethod {
    fn clone(&self) -> (out: Self)
        ensures
            out@ == self@,
    {
        VerificationMethod {
            id: self.id.clone(),
            method_type: self.method_type.clone(),
            controller: self.controller.clone(),
            public_key_jwk: self.public_key_jwk.clone(),
        }
    }
}

impl Clone for DidDocument {
    fn clone(&self) -> (out: Self)
        ensures
            out@ == self@,
    {
        let mut methods: Vec<VerificationMethod> = Vec::new();
        let mut i: usize = 0;
        while i < self.verification_method.len()
            invariant
                i <= self.verification_method.len(),
                methods.len() == i,
                forall|j: int| 0 <= j < i ==> methods@[j]@ == self.verification_method@[j]@,
            decreases self.verification_method.len() - i,
        {
            methods.push(self.verification_method[i].clone());
            i += 1;
        }
        assert(methods.deep_view() =~= self.verification_method.deep_view());
        DidDocument {
            context: clone_strings(&self.context),
            id: self.id.clone(),
            verification_method: methods,
            assertion_method: clone_strings(&self.assertion_method),
            authentication: clone_strings(&self.authentication),
        }
    }
}

/// Whether `methods` holds a verification method with the identifier `id`.
pub open spec fn has_method(methods: Seq<VerificationMethodView>, id: Seq<char>) -> bool {
    exists|i: int| 0 <= i < methods.len() && #[trigger] methods[i].id == id
}

/// Whether `methods` holds a verification method with the identifier `id`
/// that `controller` controls.
pub open spec fn has_controlled_method(
    methods: Seq<VerificationMethodView>,
    id: Seq<char>,
    controller: Seq<char>,
) -> bool {
    exists|i: int|
        0 <= i < methods.len() && #[trigger] methods[i].id == id && methods[i].controller
            == controller
}

/// Every identifier of `ids` is that of a verification method of `methods`.
pub open spec fn all_known(methods: Seq<VerificationMethodView>, ids: Seq<Seq<char>>) -> bool {
    forall|k: int| 0 <= k < ids.len() ==> has_method(methods, #[trigger] ids[k])
}

/// Every method named for assertion or authentication is in the document.
pub open spec fn document_wf(d: DidDocumentView) -> bool {
    all_known(d.verification_method, d.assertion_method) && all_known(
        d.verification_method,
        d.authentication,
    )
}

/// The verification method of a key with identifier `kid` and public key
/// `public`, under the identity `did`.
pub open spec fn method_of(did: Seq<char>, kid: Seq<char>, public: Seq<u8>) -> VerificationMethodView {
    VerificationMethodView {
        id: kid,
        method_type: "Ed25519VerificationKey2020"@,
        controller: did,
        public_key_jwk: public_jwk_of(kid, public),
    }
}

/// The identity document of `did` with the issuer key and the CAT key.
pub open spec fn document_of(did: Seq<char>, issuer: KeyPairView, cat: KeyPairView) -> DidDocumentView {
    DidDocumentView {
        context: seq![
            "https://www.w3.org/ns/did/v1"@,
            "https://w3id.org/security/suites/ed25519-2020/v1"@,
        ],
        id: did,
        verification_method: seq![
            method_of(did, issuer.kid, issuer.public),
            method_of(did, cat.kid, cat.public),
        ],
        assertion_method: seq![issuer.kid, cat.kid],
        authentication: seq![issuer.kid, cat.kid],
    }
}

/// A document built from two keys names only those two keys.
pub proof fn lemma_document_of_wf(did: Seq<char>, issuer: KeyPairView, cat: KeyPairView)
    ensures
        document_wf(document_of(did, issuer, cat)),
        has_controlled_method(document_of(did, issuer, cat).verification_method, issuer.kid, did),
        has_controlled_method(document_of(did, issuer, cat).verification_method, cat.kid, did),
{
    let d = document_of(did, issuer, cat);
    assert(d.verification_method[0].id == issuer.kid);
    assert(d.verification_method[1].id == cat.kid);
    assert forall|k: int| 0 <= k < d.assertion_method.len() implies has_method(
        d.verification_method,
        #[trigger] d.assertion_method[k],
    ) by {
        assert(d.verification_method[k].id == d.assertion_method[k]);
    }
    assert forall|k: int| 0 <= k < d.authentication.len() implies has_method(
        d.verification_method,
        #[trigger] d.authentication[k],
    ) by {
        assert(d.verification_method[k].id == d.authentication[k]);
    }
}

impl DidDocument {
    /// The document names no method that it does not hold.
    pub open spec fn wf(&self) -> bool {
        document_wf(self@)
    }

    fn method_for(did: &str, key: &KeyPair) -> (out: VerificationMethod)
        ensures
            out@ == method_of(did@, key@.kid, key@.public),
    {
        VerificationMethod {
            id: String::from_str(key.kid()),
            method_type: String::from_str("Ed25519VerificationKey2020"),
            controller: String::from_str(did),
            public_key_jwk: key.public_jwk(),
        }
    }

    /// Builds the identity document of `did` from its issuer key and its
    /// CAT key.
    pub fn new(did: &str, issuer_key: &KeyPair, cat_key: &KeyPair) -> (out: Self)
        ensures
            out@ == document_of(did@, issuer_key@, cat_key@),
            out.wf(),
    {
        let mut context: Vec<String> = Vec::new();
        context.push(String::from_str("https://www.w3.org/ns/did/v1"));
        context.push(String::from_str("https://w3id.org/security/suites/ed25519-2020/v1"));
        let mut verification_method: Vec<VerificationMethod> = Vec::new();
        verification_method.push(DidDocument::method_for(did, issuer_key));
        verification_method.push(DidDocument::method_for(did, cat_key));
        let mut assertion_method: Vec<String> = Vec::new();
        assertion_method.push(String::from_str(issuer_key.kid()));
        assertion_method.push(String::from_str(cat_key.kid()));
        let mut authentication: Vec<String> = Vec::new();
        authentication.push(String::from_str(issuer_key.kid()));
        authentication.push(String::from_str(cat_key.kid()));
        let out = DidDocument {
            context,
            id: String::from_str(did),
            verification_method,
            assertion_method,
            authentication,
        };
        proof {
            let want = document_of(did@, issuer_key@, cat_key@);
            assert(out@.context =~= want.context);
            assert(out@.verification_method =~= want.verification_method);
            assert(out@.assertion_method =~= want.assertion_method);
            assert(out@.authentication =~= want.authentication);
            lemma_document_of_wf(did@, issuer_key@, cat_key@);
        }
        out
    }

    /// Whether the document holds a verification method `id`.
    pub fn holds_method(&self, id: &str) -> (found: bool)
        ensures
            found == has_method(self@.verification_method, id@),
    {
        let mut i: usize = 0;
        while i < self.verification_method.len()
            invariant
                i <= self.verification_method.len(),
                forall|j: int| 0 <= j < i ==> (#[trigger] self@.verification_method[j]).id != id@,
            decreases self.verification_method.len() - i,
        {
            if str_eq(self.verification_method[i].id.as_str(), id) {
                assert(self@.verification_method[i as int].id == id@);
                return true;
            }
            i += 1;
        }
        false
    }

    /// Whether the document holds a verification method `id` that
    /// `controller` controls.
    pub fn holds_controlled_method(&self, id: &str, controller: &str) -> (found: bool)
        ensures
            found == has_controlled_method(self@.verification_method, id@, controller@),
    {
        let mut i: usize = 0;
        while i < self.verification_method.len()
            invariant
                i <= self.verification_method.len(),
                forall|j: int|
                    0 <= j < i ==> !((#[trigger] self@.verification_method[j]).id == id@
                        && self@.verification_method[j].controller == controller@),
            decreases self.verification_method.len() - i,
        {
            if str_eq(self.verification_method[i].id.as_str(), id) && str_eq(
                self.verification_method[i].controller.as_str(),
                controller,
            ) {
                assert(self@.verification_method[i as int].id == id@);
                return true;
            }
            i += 1;
        }
        false
    }

    fn knows_all(&self, ids: &Vec<String>) -> (ok: bool)
        ensures
            ok == all_known(self@.verification_method, ids.deep_view()),
    {
        let mut k: usize = 0;
        while k < ids.len()
            invariant
                k <= ids.len(),
                forall|j: int|
                    0 <= j < k ==> has_method(
                        self@.verification_method,
                        #[trigger] ids.deep_view()[j],
                    ),
            decreases ids.len() - k,
        {
            if !self.holds_method(ids[k].as_str()) {
                assert(!has_method(self@.verification_method, ids.deep_view()[k as int]));
                return false;
            }
            k += 1;
        }
        true
    }

    /// Whether the document names no method that it does not hold.
    pub fn is_well_formed(&self) -> (ok: bool)
        ensures
            ok == self.wf(),
    {
        self.knows_all(&self.assertion_method) && self.knows_all(&self.authentication)
    }
}

} // verus!
