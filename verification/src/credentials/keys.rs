//! Ed25519 key pairs.

use vstd::prelude::*;
use vstd::string::*;
use vstd::array::*;
use ed25519_dalek::{Signature, Signer, SigningKey, Verifier, VerifyingKey};
use rand::rngs::OsRng;
use crate::encoding::{base64url_bytes, base64url_decode, base64url_encode, base64url_text};
use crate::error::{Error, ErrorKind};
use crate::text::bytes_eq;

verus! {

/// The public key that `ed25519_dalek` derives from the secret key `secret`.
pub uninterp spec fn ed25519_public_key(secret: Seq<u8>) -> Seq<u8>;

/// The signature that `ed25519_dalek` makes on `message` with the secret
/// key `secret`. Ed25519 signing draws no randomness.
pub uninterp spec fn ed25519_signature(secret: Seq<u8>, message: Seq<u8>) -> Seq<u8>;

/// Whether `ed25519_dalek` accepts `signature` on `message` under the
/// public key `public`.
pub uninterp spec fn ed25519_accepts(public: Seq<u8>, message: Seq<u8>, signature: Seq<u8>) -> bool;

/// A secret key from `SigningKey::generate` on the operating system's
/// random source. Nothing is stated of which key it is. The call stops
/// the program where the operating system has no randomness to give.
#[verifier::external_body]
fn random_secret() -> (secret: [u8; 32]) {
    SigningKey::generate(&mut OsRng).to_bytes()
}

/// `SigningKey::try_from` on a byte slice, which accepts exactly the slices
/// of 32 bytes and keeps them as the secret key.
#[verifier::external_body]
fn secret_from_slice(bytes: &[u8]) -> (secret: Option<[u8; 32]>)
    ensures
        secret is Some <==> bytes@.len() == 32,
        secret is Some ==> secret->Some_0@ == bytes@,
{
    match SigningKey::try_from(bytes) {
        Ok(key) => Some(key.to_bytes()),
        Err(_) => None,
    }
}

/// `SigningKey::verifying_key` of the key made from `secret`, as bytes.
#[verifier::external_body]
fn derive_public(secret: &[u8; 32]) -> (public: [u8; 32])
    ensures
        public@ == ed25519_public_key(secret@),
{
    SigningKey::from_bytes(secret).verifying_key().to_bytes()
}

/// `Signer::sign` of the key made from `secret`. The signature has 64
/// bytes, and verification under the derived public key accepts it.
#[verifier::external_body]
fn sign_with(secret: &[u8; 32], message: &[u8]) -> (signature: Vec<u8>)
    ensures
        signature@ == ed25519_signature(secret@, message@),
        signature@.len() == 64,
        ed25519_accepts(ed25519_public_key(secret@), message@, signature@),
{
    SigningKey::from_bytes(secret).sign(message).to_bytes().to_vec()
}

/// `Verifier::verify` of the key that `VerifyingKey::try_from` reads from
/// `public`, on the signature that `Signature::from_slice` reads from
/// `signature`; bytes that are no key or no signature are not accepted.
#[verifier::external_body]
fn verify_with(public: &[u8], message: &[u8], signature: &[u8]) -> (accepted: bool)
    ensures
        accepted == ed25519_accepts(public@, message@, signature@),
{
    match (VerifyingKey::try_from(public), Signature::from_slice(signature)) {
        (Ok(key), Ok(sig)) => key.verify(message, &sig).is_ok(),
        _ => false,
    }
}

/// A key in JWK form, as far as an Ed25519 key uses it.
#[derive(Debug)]
pub struct Jwk {
    /// Key type
    pub kty: String,
    /// Curve
    pub crv: String,
    /// Public key, base64url without padding
    pub x: String,
    /// Private key, base64url without padding; absent in a public JWK
    pub d: Option<String>,
    /// Key identifier
    pub kid: Option<String>,
}

/// The mathematical form of a JWK.
pub ghost struct JwkView {
    pub kty: Seq<char>,
    pub crv: Seq<char>,
    pub x: Seq<char>,
    pub d: Option<Seq<char>>,
    pub kid: Option<Seq<char>>,
}

impl View for Jwk {
    type V = JwkView;

    open spec fn view(&self) -> JwkView {
        JwkView {
            kty: self.kty@,
            crv: self.crv@,
            x: self.x@,
            d: self.d.deep_view(),
            kid: self.kid.deep_view(),
        }
    }
}

impl DeepView for Jwk {
    type V = JwkView;

    open spec fn deep_view(&self) -> JwkView {
        self.view()
    }
}

impl Clone for Jwk {
    fn clone(&self) -> (out: Self)
        ensures
            out@ == self@,
    {
        let d = match &self.d {
            Some(d) => Some(d.clone()),
            None => None,
        };
        let kid = match &self.kid {
            Some(kid) => Some(kid.clone()),
            None => None,
        };
        Jwk { kty: self.kty.clone(), crv: self.crv.clone(), x: self.x.clone(), d, kid }
    }
}

/// Ed25519 key pair with its key identifier.
pub struct KeyPair {
    /// Key ID (e.g., did:web:example.com#key-1)
    pub kid: String,
    secret: [u8; 32],
    public: [u8; 32],
}

/// The mathematical form of a key pair.
pub ghost struct KeyPairView {
    pub kid: Seq<char>,
    pub secret: Seq<u8>,
    pub public: Seq<u8>,
}

impl View for KeyPair {
    type V = KeyPairView;

    closed spec fn view(&self) -> KeyPairView {
        KeyPairView { kid: self.kid@, secret: self.secret@, public: self.public@ }
    }
}

/// The public JWK of a key with identifier `kid` and public key `public`.
pub open spec fn public_jwk_of(kid: Seq<char>, public: Seq<u8>) -> JwkView {
    JwkView {
        kty: "OKP"@,
        crv: "Ed25519"@,
        x: base64url_text(public),
        d: None,
        kid: Some(kid),
    }
}

/// The private JWK of a key with identifier `kid`.
pub open spec fn private_jwk_of(kid: Seq<char>, secret: Seq<u8>, public: Seq<u8>) -> JwkView {
    JwkView { d: Some(base64url_text(secret)), ..public_jwk_of(kid, public) }
}

/// What importing the private key bytes `bytes` under `kid` gives.
pub open spec fn imported(kid: Seq<char>, bytes: Seq<u8>) -> Option<KeyPairView> {
    if bytes.len() == 32 {
        Some(KeyPairView { kid, secret: bytes, public: ed25519_public_key(bytes) })
    } else {
        None
    }
}

impl KeyPair {
    /// The public component is the one that belongs to the private one.
    pub open spec fn wf(&self) -> bool {
        &&& self@.secret.len() == 32
        &&& self@.public == ed25519_public_key(self@.secret)
    }

    proof fn lemma_view(&self)
        ensures
            self@.kid == self.kid@,
            self@.secret.len() == 32,
            self@.public.len() == 32,
    {
        broadcast use group_array_axioms;

    }

    /// Generates a new key pair with a fresh random private component.
    pub fn generate(kid: &str) -> (out: Self)
        ensures
            out.wf(),
            out@.kid == kid@,
    {
        let secret = random_secret();
        let public = derive_public(&secret);
        let out = KeyPair { kid: String::from_str(kid), secret, public };
        proof {
            out.lemma_view();
        }
        out
    }

    /// Imports a key pair from its private key bytes.
    ///
    /// Fails with a `Crypto` error unless there are exactly 32 of them.
    pub fn from_bytes(kid: &str, bytes: &[u8]) -> (out: Result<Self, Error>)
        ensures
            match out {
                Ok(key) => key.wf() && Some(key@) == imported(kid@, bytes@),
                Err(e) => imported(kid@, bytes@) is None && e.carries(
                    ErrorKind::Crypto,
                    "Invalid private key"@,
                ),
            },
    {
        match secret_from_slice(bytes) {
            Some(secret) => {
                let public = derive_public(&secret);
                let out = KeyPair { kid: String::from_str(kid), secret, public };
                proof {
                    out.lemma_view();
                }
                Ok(out)
            },
            None => Err(Error::Crypto(String::from_str("Invalid private key"))),
        }
    }

    /// Whether the public component is the one that belongs to the
    /// private one, found by deriving it again.
    pub fn is_sound(&self) -> (ok: bool)
        ensures
            ok == self.wf(),
    {
        proof {
            self.lemma_view();
        }
        let public = derive_public(&self.secret);
        bytes_eq(array_as_slice(&public), array_as_slice(&self.public))
    }

    /// The key identifier.
    pub fn kid(&self) -> (kid: &str)
        ensures
            kid@ == self@.kid,
    {
        self.kid.as_str()
    }

    /// The public key bytes.
    pub fn public_key_bytes(&self) -> (bytes: [u8; 32])
        ensures
            bytes@ == self@.public,
    {
        self.public
    }

    /// The private key bytes.
    pub fn private_key_bytes(&self) -> (bytes: [u8; 32])
        ensures
            bytes@ == self@.secret,
    {
        self.secret
    }

    /// Signs `message`. The signature depends on the private component and
    /// the message alone.
    pub fn sign(&self, message: &[u8]) -> (signature: Vec<u8>)
        ensures
            signature@ == ed25519_signature(self@.secret, message@),
            signature@.len() == 64,
            self.wf() ==> ed25519_accepts(self@.public, message@, signature@),
    {
        sign_with(&self.secret, message)
    }

    /// Exports the public key as a JWK.
    pub fn public_jwk(&self) -> (jwk: Jwk)
        ensures
            jwk@ == public_jwk_of(self@.kid, self@.public),
    {
        proof {
            self.lemma_view();
        }
        Jwk {
            kty: String::from_str("OKP"),
            crv: String::from_str("Ed25519"),
            x: base64url_encode(array_as_slice(&self.public)),
            d: None,
            kid: Some(self.kid.clone()),
        }
    }

    /// Exports the private key as a JWK. Nothing else in this library
    /// writes the private component out.
    pub fn private_jwk(&self) -> (jwk: Jwk)
        ensures
            jwk@ == private_jwk_of(self@.kid, self@.secret, self@.public),
            jwk@.d is Some && base64url_bytes(jwk@.d->Some_0) == Some(self@.secret),
    {
        proof {
            self.lemma_view();
        }
        Jwk {
            kty: String::from_str("OKP"),
            crv: String::from_str("Ed25519"),
            x: base64url_encode(array_as_slice(&self.public)),
            d: Some(base64url_encode(array_as_slice(&self.secret))),
            kid: Some(self.kid.clone()),
        }
    }

    /// Imports a key pair from a private JWK: its `kid`, and its `d` read
    /// as base64url.
    pub fn from_jwk(jwk: &Jwk) -> (out: Result<Self, Error>)
        ensures
            match out {
                Ok(key) => key.wf() && Some(key@) == jwk_import(jwk@),
                Err(e) => jwk_import(jwk@) is None && e.carries(ErrorKind::Crypto, jwk_fault(jwk@)),
            },
    {
        let kid = match &jwk.kid {
            Some(kid) => kid,
            None => {
                return Err(Error::Crypto(String::from_str("Missing kid in JWK")));
            },
        };
        let d = match &jwk.d {
            Some(d) => d,
            None => {
                return Err(Error::Crypto(String::from_str("Missing private key (d) in JWK")));
            },
        };
        let bytes = match base64url_decode(d.as_str()) {
            Some(bytes) => bytes,
            None => {
                return Err(Error::Crypto(String::from_str("Invalid base64 in JWK")));
            },
        };
        KeyPair::from_bytes(kid.as_str(), bytes.as_slice())
    }
}

/// The key pair that a JWK is imported as.
pub open spec fn jwk_import(jwk: JwkView) -> Option<KeyPairView> {
    if jwk.kid is Some && jwk.d is Some && base64url_bytes(jwk.d->Some_0) is Some {
        imported(jwk.kid->Some_0, base64url_bytes(jwk.d->Some_0)->Some_0)
    } else {
        None
    }
}

/// Why a JWK is not imported: the first thing found wrong with it.
pub open spec fn jwk_fault(jwk: JwkView) -> Seq<char> {
    if jwk.kid is None {
        "Missing kid in JWK"@
    } else if jwk.d is None {
        "Missing private key (d) in JWK"@
    } else if base64url_bytes(jwk.d->Some_0) is None {
        "Invalid base64 in JWK"@
    } else {
        "Invalid private key"@
    }
}

impl Clone for KeyPair {
    fn clone(&self) -> (out: Self)
        ensures
            out@ == self@,
    {
        KeyPair { kid: self.kid.clone(), secret: self.secret, public: self.public }
    }
}

/// Whether `signature` is a signature on `message` that verifies under the
/// public key `public`.
pub fn verify(public: &[u8], message: &[u8], signature: &[u8]) -> (accepted: bool)
    ensures
        accepted == ed25519_accepts(public@, message@, signature@),
{
    verify_with(public, message, signature)
}

} // verus!
