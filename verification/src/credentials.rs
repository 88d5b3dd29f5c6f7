//! Trust Plane credentials: the signing identity and its lifecycle.
//!
//! The manager owns the current credentials, hands out snapshots of them,
//! replaces them whole on reload, and remembers the public keys that were
//! replaced, so that what they signed can still be verified.

pub mod keys;
pub mod did;
pub mod provider;

use vstd::prelude::*;
use vstd::slice::slice_to_vec;
use vstd::string::*;
use std::sync::Arc;
use crate::credentials::did::{has_controlled_method, DidDocument, DidDocumentView};
use crate::credentials::keys::{
    ed25519_accepts, ed25519_signature, verify, KeyPair, KeyPairView,
};
use crate::credentials::provider::CredentialProvider;
use crate::error::{Error, ErrorKind};
use crate::text::{clone_strings, str_eq};
use crate::wire::{put_long_list, put_long_text, ser_long_list, ser_long_text};

verus! {

/// Whom a self-issued credential speaks of.
#[derive(Debug)]
pub struct CredentialSubject {
    pub id: String,
    pub subject_type: String,
    pub organization: Option<String>,
}

/// The proof of a credential: who signed its claim set, and the signature.
#[derive(Debug)]
pub struct CredentialProof {
    /// Identifier of the key that signed
    pub verification_method: String,
    /// Signature over the claim set
    pub signature: Vec<u8>,
}

/// The self-issued credential that binds an identity to its organization:
/// a claim set, and the proof that signs it. A credential read from
/// elsewhere may come without a proof.
#[derive(Debug)]
pub struct SelfCredential {
    pub context: Vec<String>,
    pub id: String,
    pub types: Vec<String>,
    pub issuer: String,
    pub issuance_date: String,
    pub subject: CredentialSubject,
    pub proof: Option<CredentialProof>,
}

/// The mathematical form of a credential subject.
pub ghost struct CredentialSubjectView {
    pub id: Seq<char>,
    pub subject_type: Seq<char>,
    pub organization: Option<Seq<char>>,
}

/// The mathematical form of a credential's proof.
pub ghost struct CredentialProofView {
    pub verification_method: Seq<char>,
    pub signature: Seq<u8>,
}

/// The mathematical form of a self-issued credential.
pub ghost struct SelfCredentialView {
    pub context: Seq<Seq<char>>,
    pub id: Seq<char>,
    pub types: Seq<Seq<char>>,
    pub issuer: Seq<char>,
    pub issuance_date: Seq<char>,
    pub subject: CredentialSubjectView,
    pub proof: Option<CredentialProofView>,
}

impl View for CredentialProof {
    type V = CredentialProofView;

    open spec fn view(&self) -> CredentialProofView {
        CredentialProofView {
            verification_method: self.verification_method@,
            signature: self.signature@,
        }
    }
}

impl DeepView for CredentialProof {
    type V = CredentialProofView;

    open spec fn deep_view(&self) -> CredentialProofView {
        self.view()
    }
}

impl View for CredentialSubject {
    type V = CredentialSubjectView;

    open spec fn view(&self) -> CredentialSubjectView {
        CredentialSubjectView {
            id: self.id@,
            subject_type: self.subject_type@,
            organization: self.organization.deep_view(),
        }
    }
}

impl View for SelfCredential {
    type V = SelfCredentialView;

    open spec fn view(&self) -> SelfCredentialView {
        SelfCredentialView {
            context: self.context.deep_view(),
            id: self.id@,
            types: self.types.deep_view(),
            issuer: self.issuer@,
            issuance_date: self.issuance_date@,
            subject: self.subject@,
            proof: self.proof.deep_view(),
        }
    }
}

impl Clone for CredentialSubject {
    fn clone(&self) -> (out: Self)
        ensures
            out@ == self@,
    {
        let organization = match &self.organization {
            Some(o) => Some(o.clone()),
            None => None,
        };
        CredentialSubject {
            id: self.id.clone(),
            subject_type: self.subject_type.clone(),
            organization,
        }
    }
}

impl Clone for CredentialProof {
    fn clone(&self) -> (out: Self)
        ensures
            out@ == self@,
    {
        CredentialProof {
            verification_method: self.verification_method.clone(),
            signature: slice_to_vec(self.signature.as_slice()),
        }
    }
}

/// The bytes that the proof of a credential signs: its claim set, every
/// field but the proof, each text behind its length.
pub open spec fn claim_set_bytes(c: SelfCredentialView) -> Seq<u8> {
    ser_long_list(c.context) + ser_long_text(c.id) + ser_long_list(c.types) + ser_long_text(
        c.issuer,
    ) + ser_long_text(c.issuance_date) + ser_long_text(c.subject.id) + ser_long_text(
        c.subject.subject_type,
    ) + (match c.subject.organization {
        Some(o) => seq![1u8] + ser_long_text(o),
        None => seq![0u8],
    })
}

/// The credential `c` with the proof that the key `key` makes over its
/// claim set.
pub open spec fn signed_credential(c: SelfCredentialView, key: KeyPairView) -> SelfCredentialView {
    SelfCredentialView {
        proof: Some(
            CredentialProofView {
                verification_method: key.kid,
                signature: ed25519_signature(key.secret, claim_set_bytes(c)),
            },
        ),
        ..c
    }
}

/// Whether `c` carries a proof that the public key `public` accepts over
/// its claim set.
pub open spec fn proof_accepted(c: SelfCredentialView, public: Seq<u8>) -> bool {
    c.proof is Some && ed25519_accepts(public, claim_set_bytes(c), c.proof->Some_0.signature)
}

impl SelfCredential {
    /// The bytes that the proof signs.
    pub fn claim_bytes(&self) -> (out: Vec<u8>)
        ensures
            out@ == claim_set_bytes(self@),
    {
        let mut out: Vec<u8> = Vec::new();
        put_long_list(&mut out, &self.context);
        put_long_text(&mut out, self.id.as_str());
        put_long_list(&mut out, &self.types);
        put_long_text(&mut out, self.issuer.as_str());
        put_long_text(&mut out, self.issuance_date.as_str());
        put_long_text(&mut out, self.subject.id.as_str());
        put_long_text(&mut out, self.subject.subject_type.as_str());
        match &self.subject.organization {
            Some(o) => {
                out.push(1u8);
                put_long_text(&mut out, o.as_str());
            },
            None => {
                out.push(0u8);
            },
        }
        assert(out@ =~= claim_set_bytes(self@));
        out
    }

    /// Signs the claim set with `key`, replacing the proof.
    pub fn sign(self, key: &KeyPair) -> (out: SelfCredential)
        ensures
            out@ == signed_credential(self@, key@),
            key.wf() ==> proof_accepted(out@, key@.public),
    {
        let signature = key.sign(self.claim_bytes().as_slice());
        let mut out = self;
        out.proof = Some(
            CredentialProof { verification_method: String::from_str(key.kid()), signature },
        );
        out
    }

    /// Whether the credential carries a proof that `public` accepts over
    /// its claim set.
    pub fn is_signed_by(&self, public: &[u8]) -> (ok: bool)
        ensures
            ok == proof_accepted(self@, public@),
    {
        match &self.proof {
            Some(proof) => verify(public, self.claim_bytes().as_slice(), proof.signature.as_slice()),
            None => false,
        }
    }
}

impl Clone for SelfCredential {
    fn clone(&self) -> (out: Self)
        ensures
            out@ == self@,
    {
        let proof = match &self.proof {
            Some(proof) => Some(proof.clone()),
            None => None,
        };
        SelfCredential {
            proof,
            context: clone_strings(&self.context),
            id: self.id.clone(),
            types: clone_strings(&self.types),
            issuer: self.issuer.clone(),
            issuance_date: self.issuance_date.clone(),
            subject: self.subject.clone(),
        }
    }
}

/// Trust Plane credentials: identity, keys, and self-issued credential.
///
/// Both keys are those of the one identity that they come with. What the
/// identity document says of them is another matter: `keys_bound` holds
/// where the document lists both keys under the identity's control, as it
/// does for credentials that are generated here, and `is_consistent`
/// tests it. Credentials that are read from elsewhere are taken as they
/// are, whether or not their document lists the keys.
pub struct TrustPlaneCredentials {
    /// Identity (e.g., did:web:trustplane.example.com)
    pub did: String,
    /// Organization name
    pub organization: String,
    /// Issuer key, which signs identity and credential documents
    pub issuer_key: KeyPair,
    /// CAT key, which signs PCAs
    pub cat_key: KeyPair,
    /// Identity document
    pub did_document: DidDocument,
    /// Self-issued credential
    pub credential: SelfCredential,
}

/// The mathematical form of Trust Plane credentials.
pub ghost struct CredentialsView {
    pub did: Seq<char>,
    pub organization: Seq<char>,
    pub issuer_key: KeyPairView,
    pub cat_key: KeyPairView,
    pub did_document: DidDocumentView,
    pub credential: SelfCredentialView,
}

impl View for TrustPlaneCredentials {
    type V = CredentialsView;

    open spec fn view(&self) -> CredentialsView {
        CredentialsView {
            did: self.did@,
            organization: self.organization@,
            issuer_key: self.issuer_key@,
            cat_key: self.cat_key@,
            did_document: self.did_document@,
            credential: self.credential@,
        }
    }
}

impl Clone for TrustPlaneCredentials {
    fn clone(&self) -> (out: Self)
        ensures
            out@ == self@,
    {
        TrustPlaneCredentials {
            did: self.did.clone(),
            organization: self.organization.clone(),
            issuer_key: self.issuer_key.clone(),
            cat_key: self.cat_key.clone(),
            did_document: self.did_document.clone(),
            credential: self.credential.clone(),
        }
    }
}

impl TrustPlaneCredentials {
    /// Both keys are sound, and the identity document names no method
    /// that it lacks.
    pub open spec fn wf(&self) -> bool {
        &&& self.issuer_key.wf()
        &&& self.cat_key.wf()
        &&& self.did_document.wf()
    }

    /// Both keys belong to the identity: the identity document is that of
    /// `did` and holds both keys under their identifiers, with `did` as
    /// their controller.
    pub open spec fn keys_bound(&self) -> bool {
        &&& self.did_document@.id == self.did@
        &&& has_controlled_method(
            self.did_document@.verification_method,
            self.issuer_key@.kid,
            self.did@,
        )
        &&& has_controlled_method(
            self.did_document@.verification_method,
            self.cat_key@.kid,
            self.did@,
        )
    }

    /// Whether the credentials are sound: each public key belongs to its
    /// private key, and the identity document names no method that it
    /// lacks.
    pub fn is_sound(&self) -> (ok: bool)
        ensures
            ok == self.wf(),
    {
        self.issuer_key.is_sound() && self.cat_key.is_sound()
            && self.did_document.is_well_formed()
    }

    /// Whether the identity document is well-formed and binds both keys
    /// to `did`.
    pub fn is_consistent(&self) -> (ok: bool)
        ensures
            ok == (self.did_document.wf() && self.keys_bound()),
    {
        self.did_document.is_well_formed() && str_eq(
            self.did_document.id.as_str(),
            self.did.as_str(),
        ) && self.did_document.holds_controlled_method(self.issuer_key.kid(), self.did.as_str())
            && self.did_document.holds_controlled_method(self.cat_key.kid(), self.did.as_str())
    }
}

/// A public key that is no longer the current one.
pub struct RetiredKey {
    pub kid: String,
    pub public: [u8; 32],
}

/// The mathematical form of a retired key.
pub ghost struct RetiredKeyView {
    pub kid: Seq<char>,
    pub public: Seq<u8>,
}

impl View for RetiredKey {
    type V = RetiredKeyView;

    open spec fn view(&self) -> RetiredKeyView {
        RetiredKeyView { kid: self.kid@, public: self.public@ }
    }
}

impl DeepView for RetiredKey {
    type V = RetiredKeyView;

    open spec fn deep_view(&self) -> RetiredKeyView {
        self.view()
    }
}

/// The public key under `kid` in `s`: that of the latest entry with that
/// identifier.
pub open spec fn resolve_in(s: Seq<RetiredKeyView>, kid: Seq<char>) -> Option<Seq<u8>>
    decreases s.len(),
{
    if s.len() == 0 {
        None
    } else if s.last().kid == kid {
        Some(s.last().public)
    } else {
        resolve_in(s.drop_last(), kid)
    }
}

/// `s` after `key` is retired into it with room for `capacity` keys: the
/// oldest key leaves where there is no room.
pub open spec fn retired(s: Seq<RetiredKeyView>, key: RetiredKeyView, capacity: nat) -> Seq<
    RetiredKeyView,
> {
    if capacity == 0 {
        s
    } else if s.len() < capacity {
        s.push(key)
    } else {
        s.drop_first().push(key)
    }
}

/// Bounded history of retired public keys, oldest first.
pub struct KeyHistory {
    keys: Vec<RetiredKey>,
    capacity: usize,
}

/// The mathematical form of a key history: the retired keys, oldest
/// first, and the room that the history has.
pub ghost struct KeyHistoryView {
    pub keys: Seq<RetiredKeyView>,
    pub capacity: nat,
}

impl View for KeyHistory {
    type V = KeyHistoryView;

    closed spec fn view(&self) -> KeyHistoryView {
        KeyHistoryView { keys: self.keys.deep_view(), capacity: self.capacity as nat }
    }
}

impl KeyHistory {
    /// How many keys the history keeps at most.
    pub open spec fn capacity(&self) -> nat {
        self@.capacity
    }

    /// The history holds no more keys than it has room for.
    pub open spec fn wf(&self) -> bool {
        self@.keys.len() <= self@.capacity
    }

    /// An empty history with room for `capacity` keys.
    pub fn new(capacity: usize) -> (out: Self)
        ensures
            out.wf(),
            out@.keys == Seq::<RetiredKeyView>::empty(),
            out@.capacity == capacity,
    {
        let out = KeyHistory { keys: Vec::new(), capacity };
        assert(out@.keys =~= Seq::<RetiredKeyView>::empty());
        out
    }

    /// The number of keys in the history.
    pub fn len(&self) -> (n: usize)
        ensures
            n == self@.keys.len(),
    {
        self.keys.len()
    }

    /// Puts a retired key into the history.
    pub fn retire(&mut self, kid: String, public: [u8; 32])
        requires
            old(self).wf(),
        ensures
            final(self).wf(),
            final(self)@ == (KeyHistoryView {
                keys: retired(
                    old(self)@.keys,
                    RetiredKeyView { kid: kid@, public: public@ },
                    old(self)@.capacity,
                ),
                capacity: old(self)@.capacity,
            }),
    {
        if self.capacity == 0 {
            return;
        }
        let ghost before = self@.keys;
        if self.keys.len() >= self.capacity {
            self.keys.remove(0);
            assert(self@.keys =~= before.drop_first());
        }
        let ghost mid = self@.keys;
        let key = RetiredKey { kid, public };
        self.keys.push(key);
        assert(self@.keys =~= mid.push(key@));
    }

    /// The public key that was retired under `kid`, the latest where there
    /// are several.
    pub fn resolve(&self, kid: &str) -> (out: Option<[u8; 32]>)
        ensures
            match out {
                Some(public) => resolve_in(self@.keys, kid@) == Some(public@),
                None => resolve_in(self@.keys, kid@) is None,
            },
    {
        let mut i: usize = self.keys.len();
        assert(self@.keys.take(i as int) =~= self@.keys);
        while i > 0
            invariant
                i <= self.keys.len(),
                resolve_in(self@.keys, kid@) == resolve_in(self@.keys.take(i as int), kid@),
            decreases i,
        {
            let ghost s = self@.keys.take(i as int);
            assert(s.last() == self@.keys[i - 1]);
            assert(s.drop_last() =~= self@.keys.take(i - 1));
            if str_eq(self.keys[i - 1].kid.as_str(), kid) {
                return Some(self.keys[i - 1].public);
            }
            i -= 1;
        }
        None
    }
}

/// The counter that follows `v`; it starts over after the largest value.
pub open spec fn next_version(v: u64) -> u64 {
    if v == u64::MAX {
        0
    } else {
        (v + 1) as u64
    }
}

/// Default room for retired keys.
pub const DEFAULT_HISTORY: usize = 16;

/// What a watcher has seen of a manager's snapshots.
#[derive(Clone, Copy, Debug, PartialEq, Eq, Structural)]
pub struct Watcher {
    /// The version last delivered; none before the first delivery.
    pub seen: Option<u64>,
}

/// `Arc::clone`: another handle on the same snapshot.
#[verifier::external_body]
fn share(snapshot: &Arc<TrustPlaneCredentials>) -> (out: Arc<TrustPlaneCredentials>)
    ensures
        *out == **snapshot,
{
    Arc::clone(snapshot)
}

/// Holds the current credentials and publishes replacements.
///
/// The manager is active from its construction on: there is always a
/// current snapshot. A replacement is published whole.
pub struct CredentialsManager {
    current: Arc<TrustPlaneCredentials>,
    version: u64,
    history: KeyHistory,
}

impl CredentialsManager {
    /// The current snapshot.
    pub closed spec fn snapshot(&self) -> TrustPlaneCredentials {
        *self.current
    }

    /// How many times the snapshot was replaced, counted with `next_version`.
    pub closed spec fn version(&self) -> u64 {
        self.version
    }

    /// The retired CAT keys, oldest first.
    pub closed spec fn history(&self) -> Seq<RetiredKeyView> {
        self.history@.keys
    }

    /// Room for retired CAT keys.
    pub closed spec fn history_capacity(&self) -> nat {
        self.history@.capacity
    }

    /// The snapshot is sound and the history within its bound.
    pub open spec fn wf(&self) -> bool {
        self.snapshot().wf() && self.history().len() <= self.history_capacity()
    }

    /// The public key that signatures under `kid` are verified with: the
    /// current CAT key where it has that identifier, else the retired key.
    pub open spec fn resolve_spec(&self, kid: Seq<char>) -> Option<Seq<u8>> {
        if self.snapshot().cat_key@.kid == kid {
            Some(self.snapshot().cat_key@.public)
        } else {
            resolve_in(self.history(), kid)
        }
    }

    /// A manager with `credentials` as its first snapshot and the default
    /// room for retired keys.
    pub fn new(credentials: TrustPlaneCredentials) -> (out: Self)
        requires
            credentials.wf(),
        ensures
            out.wf(),
            out.snapshot() == credentials,
            out.version() == 0,
            out.history() == Seq::<RetiredKeyView>::empty(),
            out.history_capacity() == DEFAULT_HISTORY,
    {
        CredentialsManager::with_history(credentials, DEFAULT_HISTORY)
    }

    /// A manager with `credentials` as its first snapshot and room for
    /// `capacity` retired keys.
    pub fn with_history(credentials: TrustPlaneCredentials, capacity: usize) -> (out: Self)
        requires
            credentials.wf(),
        ensures
            out.wf(),
            out.snapshot() == credentials,
            out.version() == 0,
            out.history() == Seq::<RetiredKeyView>::empty(),
            out.history_capacity() == capacity,
    {
        CredentialsManager {
            current: Arc::new(credentials),
            version: 0,
            history: KeyHistory::new(capacity),
        }
    }

    /// A manager with `credentials` as its first snapshot, where they are
    /// sound. Fails with `Invalid` where they are not.
    pub fn try_new(credentials: TrustPlaneCredentials) -> (out: Result<Self, Error>)
        ensures
            match out {
                Ok(m) => credentials.wf() && m.wf() && m.snapshot() == credentials && m.version()
                    == 0 && m.history() == Seq::<RetiredKeyView>::empty() && m.history_capacity()
                    == DEFAULT_HISTORY,
                Err(e) => !credentials.wf() && e.carries(
                    ErrorKind::Invalid,
                    "credentials are not sound"@,
                ),
            },
    {
        if credentials.is_sound() {
            Ok(CredentialsManager::new(credentials))
        } else {
            Err(Error::Invalid(String::from_str("credentials are not sound")))
        }
    }

    /// What starting a manager from the outcome `loaded` of a load gives:
    /// a manager in its first state with the loaded credentials as its
    /// snapshot, or the failure of the load, unchanged.
    pub open spec fn started(
        loaded: Result<TrustPlaneCredentials, Error>,
        out: Result<CredentialsManager, Error>,
    ) -> bool {
        match loaded {
            Ok(credentials) => out matches Ok(m) && m.wf() && m.snapshot() == credentials
                && m.version() == 0 && m.history() == Seq::<RetiredKeyView>::empty()
                && m.history_capacity() == DEFAULT_HISTORY,
            Err(e) => out matches Err(failure) && failure == e,
        }
    }

    /// A manager whose first snapshot is what `provider` loads. The
    /// provider is asked once; the manager succeeds exactly where the load
    /// does, and fails with the load's own error where it fails.
    pub fn from_provider<P: CredentialProvider>(provider: &P) -> (out: Result<Self, Error>)
        ensures
            exists|loaded: Result<TrustPlaneCredentials, Error>|
                #[trigger] call_ensures(P::load, (provider,), loaded)
                    && CredentialsManager::started(loaded, out),
    {
        let loaded = provider.load();
        let ghost seen = loaded;
        let out = match loaded {
            Ok(credentials) => Ok(CredentialsManager::new(credentials)),
            Err(e) => Err(e),
        };
        assert(call_ensures(P::load, (provider,), seen) && CredentialsManager::started(seen, out));
        out
    }

    /// The latest snapshot. It stays as it is whatever happens to the
    /// manager afterwards.
    pub fn current(&self) -> (out: Arc<TrustPlaneCredentials>)
        ensures
            *out == self.snapshot(),
    {
        share(&self.current)
    }

    /// What one update does to a manager: `after` holds `replacement` as
    /// its snapshot, counts one version more than `before`, and has the CAT
    /// key of the snapshot of `before` retired into its history.
    pub open spec fn updated(before: Self, after: Self, replacement: TrustPlaneCredentials) -> bool {
        &&& after.snapshot() == replacement
        &&& after.version() == next_version(before.version())
        &&& after.history_capacity() == before.history_capacity()
        &&& after.history() == retired(
            before.history(),
            RetiredKeyView {
                kid: before.snapshot().cat_key@.kid,
                public: before.snapshot().cat_key@.public,
            },
            before.history_capacity(),
        )
    }

    /// Replaces the snapshot by `credentials` and retires the CAT key of
    /// the snapshot that is replaced.
    pub fn update(&mut self, credentials: TrustPlaneCredentials)
        requires
            old(self).wf(),
            credentials.wf(),
        ensures
            final(self).wf(),
            CredentialsManager::updated(*old(self), *final(self), credentials),
    {
        let kid = String::from_str(self.current.cat_key.kid());
        let public = self.current.cat_key.public_key_bytes();
        self.history.retire(kid, public);
        self.current = Arc::new(credentials);
        self.version = if self.version == u64::MAX {
            0
        } else {
            self.version + 1
        };
    }

    /// Replaces the snapshot by `credentials` as `update` does, and hands
    /// back the snapshot that was replaced. What is handed back was taken
    /// before the update and is the old snapshot still after it: the
    /// update alters nothing of a snapshot that was handed out.
    pub fn replace(&mut self, credentials: TrustPlaneCredentials) -> (replaced: Arc<
        TrustPlaneCredentials,
    >)
        requires
            old(self).wf(),
            credentials.wf(),
        ensures
            final(self).wf(),
            CredentialsManager::updated(*old(self), *final(self), credentials),
            *replaced == old(self).snapshot(),
            replaced.wf(),
    {
        let taken = self.current();
        self.update(credentials);
        taken
    }

    /// Replaces the snapshot by `credentials` where they are sound, as
    /// `update` does. Fails with `Invalid`, and leaves the manager as it
    /// is, where they are not.
    pub fn try_update(&mut self, credentials: TrustPlaneCredentials) -> (out: Result<(), Error>)
        requires
            old(self).wf(),
        ensures
            final(self).wf(),
            match out {
                Ok(_) => credentials.wf() && final(self).snapshot() == credentials
                    && final(self).version() == next_version(old(self).version())
                    && final(self).history() == retired(
                    old(self).history(),
                    RetiredKeyView {
                        kid: old(self).snapshot().cat_key@.kid,
                        public: old(self).snapshot().cat_key@.public,
                    },
                    old(self).history_capacity(),
                ) && final(self).history_capacity() == old(self).history_capacity(),
                Err(e) => !credentials.wf() && *final(self) == *old(self) && e.carries(
                    ErrorKind::Invalid,
                    "credentials are not sound"@,
                ),
            },
    {
        if credentials.is_sound() {
            self.update(credentials);
            Ok(())
        } else {
            Err(Error::Invalid(String::from_str("credentials are not sound")))
        }
    }

    /// Takes what a provider's watch delivered: sound credentials replace
    /// the snapshot; a failure, or credentials that are not sound, leave
    /// the manager as it is. Tells whether the snapshot was replaced.
    pub fn apply(&mut self, event: Result<TrustPlaneCredentials, Error>) -> (replaced: bool)
        requires
            old(self).wf(),
        ensures
            final(self).wf(),
            replaced == (event matches Ok(c) && c.wf()),
            replaced ==> final(self).snapshot() == event->Ok_0 && final(self).version()
                == next_version(old(self).version()),
            !replaced ==> *final(self) == *old(self),
    {
        match event {
            Ok(credentials) => self.try_update(credentials).is_ok(),
            Err(_) => false,
        }
    }

    /// A watcher that has seen nothing yet: its first poll delivers the
    /// latest snapshot.
    pub fn subscribe(&self) -> (out: Watcher)
        ensures
            out.seen is None,
    {
        Watcher { seen: None }
    }

    /// Delivers the latest snapshot to `watcher` unless it has seen it.
    /// Snapshots replaced between two polls are never delivered.
    pub fn poll(&self, watcher: &mut Watcher) -> (out: Option<Arc<TrustPlaneCredentials>>)
        ensures
            final(watcher).seen == Some(self.version()),
            out is Some <==> old(watcher).seen != Some(self.version()),
            out matches Some(s) ==> *s == self.snapshot(),
    {
        let fresh = match watcher.seen {
            Some(v) => v != self.version,
            None => true,
        };
        watcher.seen = Some(self.version);
        if fresh {
            Some(share(&self.current))
        } else {
            None
        }
    }

    /// The public key that signatures under `kid` are verified with.
    pub fn resolve(&self, kid: &str) -> (out: Option<[u8; 32]>)
        ensures
            match out {
                Some(public) => self.resolve_spec(kid@) == Some(public@),
                None => self.resolve_spec(kid@) is None,
            },
    {
        if str_eq(self.current.cat_key.kid(), kid) {
            Some(self.current.cat_key.public_key_bytes())
        } else {
            self.history.resolve(kid)
        }
    }
}

/// One update publishes the replacement whole and leaves the manager
/// sound: the manager after it holds exactly the replacement, keeps its
/// history within its room, and differs in version from the manager
/// before it, so that every watcher that had seen the old snapshot is
/// delivered the new one. (That a snapshot handed out before the update
/// is unaltered after it is what `replace` ensures.)
pub proof fn law_snapshot_isolation(
    before: CredentialsManager,
    after: CredentialsManager,
    replacement: TrustPlaneCredentials,
)
    requires
        before.wf(),
        replacement.wf(),
        CredentialsManager::updated(before, after, replacement),
    ensures
        after.wf(),
        after.snapshot() == replacement,
        after.version() != before.version(),
        before.snapshot().wf(),
{
}

/// What the replaced snapshot signed can still be verified: after an
/// update, the identifier of the replaced CAT key resolves to that key,
/// as long as there is room for one retired key and the new CAT key has
/// an identifier of its own.
pub proof fn law_replaced_key_resolves(
    before: CredentialsManager,
    after: CredentialsManager,
    replacement: TrustPlaneCredentials,
)
    requires
        before.wf(),
        CredentialsManager::updated(before, after, replacement),
        before.history_capacity() > 0,
        replacement.cat_key@.kid != before.snapshot().cat_key@.kid,
    ensures
        after.resolve_spec(before.snapshot().cat_key@.kid) == Some(
            before.snapshot().cat_key@.public,
        ),
{
    let s = after.history();
    assert(s.last().kid == before.snapshot().cat_key@.kid);
}

} // verus!
