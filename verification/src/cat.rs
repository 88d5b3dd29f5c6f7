//! The transition engine: it checks a PCA and mints the next one of its
//! chain.
//!
//! The engine keeps no tokens. What it needs to know of a chain comes
//! with the request: the PCA, and the one before it.

use vstd::prelude::*;
use vstd::array::array_as_slice;
use vstd::string::*;
use crate::clock::now_seconds;
use crate::credentials::keys::{ed25519_accepts, verify};
use crate::credentials::{CredentialsManager, CredentialsView};
use crate::error::{public_text, Error, ErrorKind};
use crate::pca::{
    content_hash, decode_spec, encodable, encode_spec, expiry, expiry_at, law_decode_encode,
    law_encode_decode, sealed, sha256_digest, signing_bytes, well_placed, Pca, PcaView,
    Predecessor, PredecessorView,
};
use crate::text::bytes_eq;

verus! {

/// How long a minted PCA lives, in seconds.
pub const DEFAULT_TTL_SECONDS: u64 = 300;

/// Request to transition a PCA.
#[derive(Debug)]
pub struct TransitionRequest {
    /// The encoded PCA
    pub pca: Vec<u8>,
    /// The encoded PCA before it in the chain; empty for a root
    pub prior_pca: Vec<u8>,
}

/// Answer to a transition: the next encoded PCA, or an error text and no
/// PCA.
#[derive(Debug)]
pub struct TransitionResponse {
    pub pca: Vec<u8>,
    pub error: String,
}

/// The bytes of an optional byte string.
pub open spec fn opt_bytes(b: Option<&[u8]>) -> Option<Seq<u8>> {
    match b {
        Some(b) => Some(b@),
        None => None,
    }
}

/// The prior PCA that a request supplies: none where the field is empty.
pub open spec fn prior_of(prior_pca: Seq<u8>) -> Option<Seq<u8>> {
    if prior_pca.len() == 0 {
        None
    } else {
        Some(prior_pca)
    }
}

/// The PCA that `creds` mints at `now` as the successor of `p`, whose
/// encoding is `input`.
pub open spec fn minted_next(
    p: PcaView,
    input: Seq<u8>,
    creds: CredentialsView,
    now: u64,
    ttl: u64,
) -> PcaView {
    sealed(
        PcaView {
            subject: p.subject,
            issuer: creds.did,
            sequence: (p.sequence + 1) as u64,
            previous: PredecessorView::Hash(sha256_digest(input)),
            expires_at: expiry(now, ttl),
            claims: p.claims,
            kid: creds.cat_key.kid,
            signature: Seq::empty(),
        },
        creds.cat_key.secret,
    )
}

/// What is wrong with the place of `p` in its chain, given the prior PCA
/// that the caller supplied; nothing where the chain is continuous.
///
/// A PCA at sequence 0 is a root: it names no predecessor and comes with
/// none. Any other PCA names the hash of its predecessor, and the caller
/// supplies that predecessor, which stands one place before it.
pub open spec fn chain_fault(p: PcaView, prior: Option<Seq<u8>>) -> Option<Seq<char>> {
    if p.sequence == 0 {
        if !(p.previous is Root) {
            Some("root PCA names a predecessor"@)
        } else if prior is Some {
            Some("root PCA has no predecessor"@)
        } else {
            None
        }
    } else {
        match p.previous {
            PredecessorView::Root => Some("PCA past the root names no predecessor"@),
            PredecessorView::Hash(h) => match prior {
                None => Some("prior PCA is required"@),
                Some(b) => if sha256_digest(b) != h {
                    Some("prior PCA does not match"@)
                } else {
                    match decode_spec(b) {
                        None => Some("prior PCA is malformed"@),
                        Some(q) => if q.sequence + 1 != p.sequence {
                            Some("prior PCA is out of sequence"@)
                        } else {
                            None
                        },
                    }
                },
            },
        }
    }
}

/// Why the PCA encoded as `input` is not transitioned; nothing where it is.
///
/// The checks are made in this order, and the first that fails decides:
/// the encoding, the key named by the PCA, its signature, its place in
/// the chain, its expiry, and room for the next sequence number.
pub open spec fn transition_fault(
    manager: CredentialsManager,
    input: Seq<u8>,
    prior: Option<Seq<u8>>,
    now: u64,
    ttl: u64,
) -> Option<(ErrorKind, Seq<char>)> {
    match decode_spec(input) {
        None => Some((ErrorKind::Invalid, "malformed PCA encoding"@)),
        Some(p) => match manager.resolve_spec(p.kid) {
            None => Some((ErrorKind::NotFound, p.kid)),
            Some(public) => if !ed25519_accepts(public, signing_bytes(p), p.signature) {
                Some((ErrorKind::Crypto, "PCA signature does not verify"@))
            } else if chain_fault(p, prior) is Some {
                Some((ErrorKind::Invalid, chain_fault(p, prior)->Some_0))
            } else if now >= p.expires_at {
                Some((ErrorKind::Invalid, "PCA is expired"@))
            } else if p.sequence == u64::MAX {
                Some((ErrorKind::Invalid, "PCA sequence is exhausted"@))
            } else if !encodable(minted_next(p, input, manager.snapshot()@, now, ttl)) {
                Some((ErrorKind::Internal, "PCA is too large to encode"@))
            } else {
                None
            },
        },
    }
}

/// The encoded PCA that a transition returns where nothing is wrong.
pub open spec fn transition_result(
    manager: CredentialsManager,
    input: Seq<u8>,
    now: u64,
    ttl: u64,
) -> Seq<u8> {
    encode_spec(minted_next(decode_spec(input)->Some_0, input, manager.snapshot()@, now, ttl))
}

impl Pca {
    /// Checks the place of `self` in its chain against the prior PCA that
    /// the caller supplied.
    pub fn check_chain(&self, prior: Option<&[u8]>) -> (out: Result<(), Error>)
        ensures
            match out {
                Ok(_) => chain_fault(self@, opt_bytes(prior)) is None,
                Err(e) => chain_fault(self@, opt_bytes(prior)) == Some(e.detail()) && e.spec_kind()
                    == ErrorKind::Invalid,
            },
    {
        if self.sequence == 0 {
            match &self.previous {
                Predecessor::Root => {},
                Predecessor::Hash(_) => {
                    return Err(Error::Invalid(String::from_str("root PCA names a predecessor")));
                },
            }
            if prior.is_some() {
                return Err(Error::Invalid(String::from_str("root PCA has no predecessor")));
            }
            return Ok(());
        }
        let hash = match &self.previous {
            Predecessor::Root => {
                return Err(
                    Error::Invalid(String::from_str("PCA past the root names no predecessor")),
                );
            },
            Predecessor::Hash(h) => h,
        };
        let bytes = match prior {
            None => {
                return Err(Error::Invalid(String::from_str("prior PCA is required")));
            },
            Some(b) => b,
        };
        let digest = content_hash(bytes);
        if !bytes_eq(digest.as_slice(), hash.as_slice()) {
            return Err(Error::Invalid(String::from_str("prior PCA does not match")));
        }
        match Pca::decode(bytes) {
            None => Err(Error::Invalid(String::from_str("prior PCA is malformed"))),
            Some(q) => {
                if q.sequence == u64::MAX || q.sequence + 1 != self.sequence {
                    Err(Error::Invalid(String::from_str("prior PCA is out of sequence")))
                } else {
                    Ok(())
                }
            },
        }
    }
}

/// Checks the PCA encoded as `pca` and mints its successor.
///
/// The PCA must decode, carry a signature that verifies under the key it
/// names (the current CAT key or a retired one), stand where it says in
/// its chain, and not be expired at `now`. Its successor copies subject
/// and claims, stands one place further, names the hash of `pca`, lives
/// `ttl` seconds from `now`, and is signed with the current CAT key.
///
/// `prior` is the encoding of the PCA before `pca`; a root comes with none.
pub fn transition(
    manager: &CredentialsManager,
    pca: &[u8],
    prior: Option<&[u8]>,
    now: u64,
    ttl: u64,
) -> (out: Result<Vec<u8>, Error>)
    requires
        manager.wf(),
    ensures
        match out {
            Ok(next) => transition_fault(*manager, pca@, opt_bytes(prior), now, ttl) is None
                && next@ == transition_result(*manager, pca@, now, ttl) && ed25519_accepts(
                manager.snapshot()@.cat_key.public,
                signing_bytes(decode_spec(next@)->Some_0),
                decode_spec(next@)->Some_0.signature,
            ),
            Err(e) => transition_fault(*manager, pca@, opt_bytes(prior), now, ttl) == Some(
                (e.spec_kind(), e.detail()),
            ),
        },
{
    let p = match Pca::decode(pca) {
        Some(p) => p,
        None => {
            return Err(Error::Invalid(String::from_str("malformed PCA encoding")));
        },
    };
    proof {
        law_encode_decode(pca@);
    }
    let public = match manager.resolve(p.kid.as_str()) {
        Some(public) => public,
        None => {
            return Err(Error::NotFound(p.kid));
        },
    };
    let signed = p.signed_bytes();
    if !verify(array_as_slice(&public), signed.as_slice(), p.signature.as_slice()) {
        return Err(Error::Crypto(String::from_str("PCA signature does not verify")));
    }
    match p.check_chain(prior) {
        Ok(_) => {},
        Err(e) => {
            return Err(e);
        },
    }
    if now >= p.expires_at {
        return Err(Error::Invalid(String::from_str("PCA is expired")));
    }
    if p.sequence == u64::MAX {
        return Err(Error::Invalid(String::from_str("PCA sequence is exhausted")));
    }
    let creds = manager.current();
    let body = Pca {
        subject: p.subject,
        issuer: creds.did.clone(),
        sequence: p.sequence + 1,
        previous: Predecessor::Hash(content_hash(pca)),
        expires_at: expiry_at(now, ttl),
        claims: p.claims,
        kid: String::from_str(creds.cat_key.kid()),
        signature: Vec::new(),
    };
    let next = match body.seal(&creds.cat_key) {
        Some(next) => next,
        None => {
            return Err(Error::Internal(String::from_str("PCA is too large to encode")));
        },
    };
    proof {
        law_decode_encode(next@);
    }
    Ok(next.encoded())
}

/// A transition moves one place along the chain: what it returns decodes
/// to a PCA that stands one place after its input, names the hash of the
/// input as its predecessor, and is continuous with the input as its
/// prior PCA.
pub proof fn law_transition_advances(
    manager: CredentialsManager,
    input: Seq<u8>,
    prior: Option<Seq<u8>>,
    now: u64,
    ttl: u64,
)
    requires
        manager.wf(),
        transition_fault(manager, input, prior, now, ttl) is None,
    ensures
        decode_spec(input) is Some,
        decode_spec(transition_result(manager, input, now, ttl)) is Some,
        decode_spec(transition_result(manager, input, now, ttl))->Some_0.sequence == decode_spec(
            input,
        )->Some_0.sequence + 1,
        decode_spec(transition_result(manager, input, now, ttl))->Some_0.previous
            == PredecessorView::Hash(sha256_digest(input)),
        decode_spec(transition_result(manager, input, now, ttl))->Some_0.subject == decode_spec(
            input,
        )->Some_0.subject,
        decode_spec(transition_result(manager, input, now, ttl))->Some_0.claims == decode_spec(
            input,
        )->Some_0.claims,
        chain_fault(decode_spec(transition_result(manager, input, now, ttl))->Some_0, Some(input))
            is None,
{
    let p = decode_spec(input)->Some_0;
    let next = minted_next(p, input, manager.snapshot()@, now, ttl);
    assert(encodable(next));
    law_decode_encode(next);
    assert(decode_spec(transition_result(manager, input, now, ttl)) == Some(next));
    assert(next.sequence == p.sequence + 1);
    assert(next.previous == PredecessorView::Hash(sha256_digest(input)));
    assert(chain_fault(next, Some(input)) is None);
}

/// A valid PCA is always transitioned, one place on: a PCA that decodes,
/// names a known key that accepts its signature, stands where it says in
/// its chain and is not expired finds no fault, and its successor stands
/// at the next sequence number. Two limits of the machine are all that is
/// asked besides: the sequence number is not the largest there is, and
/// the successor can be written down.
pub proof fn law_valid_pca_is_transitioned(
    manager: CredentialsManager,
    input: Seq<u8>,
    prior: Option<Seq<u8>>,
    now: u64,
    ttl: u64,
)
    requires
        manager.wf(),
        decode_spec(input) is Some,
        manager.resolve_spec(decode_spec(input)->Some_0.kid) is Some,
        ed25519_accepts(
            manager.resolve_spec(decode_spec(input)->Some_0.kid)->Some_0,
            signing_bytes(decode_spec(input)->Some_0),
            decode_spec(input)->Some_0.signature,
        ),
        chain_fault(decode_spec(input)->Some_0, prior) is None,
        now < decode_spec(input)->Some_0.expires_at,
        decode_spec(input)->Some_0.sequence < u64::MAX,
        encodable(minted_next(decode_spec(input)->Some_0, input, manager.snapshot()@, now, ttl)),
    ensures
        transition_fault(manager, input, prior, now, ttl) is None,
        decode_spec(transition_result(manager, input, now, ttl)) is Some,
        decode_spec(transition_result(manager, input, now, ttl))->Some_0.sequence == decode_spec(
            input,
        )->Some_0.sequence + 1,
{
    law_transition_advances(manager, input, prior, now, ttl);
}

/// The PCA at place `k` of the chain that starts with `first`, together
/// with the PCA before it: every PCA after the first is what the
/// transition of the one before it returns, made at the time
/// `times[k - 1]` with the one before that as its prior PCA.
pub open spec fn chain_at(
    manager: CredentialsManager,
    first: Seq<u8>,
    first_prior: Option<Seq<u8>>,
    times: Seq<u64>,
    ttl: u64,
    k: nat,
) -> (Seq<u8>, Option<Seq<u8>>)
    decreases k,
{
    if k == 0 {
        (first, first_prior)
    } else {
        let before = chain_at(manager, first, first_prior, times, ttl, (k - 1) as nat);
        (transition_result(manager, before.0, times[k - 1], ttl), Some(before.0))
    }
}

/// Each of the first `n` transitions of the chain is made: none of them
/// finds a fault.
pub open spec fn chain_unbroken(
    manager: CredentialsManager,
    first: Seq<u8>,
    first_prior: Option<Seq<u8>>,
    times: Seq<u64>,
    ttl: u64,
    n: nat,
) -> bool {
    forall|k: nat|
        #![trigger chain_at(manager, first, first_prior, times, ttl, k)]
        k < n ==> transition_fault(
            manager,
            chain_at(manager, first, first_prior, times, ttl, k).0,
            chain_at(manager, first, first_prior, times, ttl, k).1,
            times[k as int],
            ttl,
        ) is None
}

/// Along a chain of any length the sequence number counts the
/// transitions: after `n` transitions that were all made, the PCA stands
/// `n` places after the first, without wrapping around, and names the hash
/// of the PCA one place before it.
pub proof fn law_chain_advances(
    manager: CredentialsManager,
    first: Seq<u8>,
    first_prior: Option<Seq<u8>>,
    times: Seq<u64>,
    ttl: u64,
    n: nat,
)
    requires
        manager.wf(),
        0 < n <= times.len(),
        chain_unbroken(manager, first, first_prior, times, ttl, n),
    ensures
        decode_spec(first) is Some,
        decode_spec(chain_at(manager, first, first_prior, times, ttl, n).0) is Some,
        decode_spec(chain_at(manager, first, first_prior, times, ttl, n).0)->Some_0.sequence
            == decode_spec(first)->Some_0.sequence + n,
        decode_spec(chain_at(manager, first, first_prior, times, ttl, n).0)->Some_0.previous
            == PredecessorView::Hash(
            sha256_digest(chain_at(manager, first, first_prior, times, ttl, (n - 1) as nat).0),
        ),
        decode_spec(chain_at(manager, first, first_prior, times, ttl, n).0)->Some_0.subject
            == decode_spec(first)->Some_0.subject,
        decode_spec(chain_at(manager, first, first_prior, times, ttl, n).0)->Some_0.claims
            == decode_spec(first)->Some_0.claims,
    decreases n,
{
    let before = chain_at(manager, first, first_prior, times, ttl, (n - 1) as nat);
    assert(transition_fault(manager, before.0, before.1, times[n - 1], ttl) is None);
    law_transition_advances(manager, before.0, before.1, times[n - 1], ttl);
    if n > 1 {
        assert forall|k: nat|
            #![trigger chain_at(manager, first, first_prior, times, ttl, k)]
            k < (n - 1) as nat implies transition_fault(
            manager,
            chain_at(manager, first, first_prior, times, ttl, k).0,
            chain_at(manager, first, first_prior, times, ttl, k).1,
            times[k as int],
            ttl,
        ) is None by {}
        law_chain_advances(manager, first, first_prior, times, ttl, (n - 1) as nat);
    }
}

/// A transition is made only of a PCA whose signature verifies: the
/// key that the PCA names is known, and the signature is one that this
/// key accepts over exactly the fields that were decoded.
pub proof fn law_transition_verifies(
    manager: CredentialsManager,
    input: Seq<u8>,
    prior: Option<Seq<u8>>,
    now: u64,
    ttl: u64,
)
    requires
        manager.wf(),
        transition_fault(manager, input, prior, now, ttl) is None,
    ensures
        decode_spec(input) is Some,
        manager.resolve_spec(decode_spec(input)->Some_0.kid) is Some,
        ed25519_accepts(
            manager.resolve_spec(decode_spec(input)->Some_0.kid)->Some_0,
            signing_bytes(decode_spec(input)->Some_0),
            decode_spec(input)->Some_0.signature,
        ),
{
}

/// A PCA whose signature the key it names does not accept is never
/// transitioned: the outcome is the `Crypto` error, whatever else holds of
/// the request. Bytes that decode to no PCA give `Invalid`, and a PCA
/// that names an unknown key gives `NotFound`.
pub proof fn law_unverified_is_rejected(
    manager: CredentialsManager,
    input: Seq<u8>,
    prior: Option<Seq<u8>>,
    now: u64,
    ttl: u64,
)
    requires
        manager.wf(),
    ensures
        decode_spec(input) is None ==> transition_fault(manager, input, prior, now, ttl) == Some(
            (ErrorKind::Invalid, "malformed PCA encoding"@),
        ),
        decode_spec(input) is Some && manager.resolve_spec(decode_spec(input)->Some_0.kid) is None
            ==> transition_fault(manager, input, prior, now, ttl) == Some(
            (ErrorKind::NotFound, decode_spec(input)->Some_0.kid),
        ),
        decode_spec(input) is Some && manager.resolve_spec(decode_spec(input)->Some_0.kid) is Some
            && !ed25519_accepts(
            manager.resolve_spec(decode_spec(input)->Some_0.kid)->Some_0,
            signing_bytes(decode_spec(input)->Some_0),
            decode_spec(input)->Some_0.signature,
        ) ==> transition_fault(manager, input, prior, now, ttl) == Some(
            (ErrorKind::Crypto, "PCA signature does not verify"@),
        ),
{
}

/// A PCA at sequence 0 is transitioned only as a root: it names no
/// predecessor and comes with none. And what a transition returns is
/// never a root.
pub proof fn law_root_only_as_root(
    manager: CredentialsManager,
    input: Seq<u8>,
    prior: Option<Seq<u8>>,
    now: u64,
    ttl: u64,
)
    requires
        manager.wf(),
        transition_fault(manager, input, prior, now, ttl) is None,
    ensures
        decode_spec(input)->Some_0.sequence == 0 ==> decode_spec(input)->Some_0.previous is Root
            && prior is None,
        decode_spec(input)->Some_0.sequence > 0 ==> decode_spec(input)->Some_0.previous is Hash
            && prior is Some,
        well_placed(decode_spec(input)->Some_0),
        decode_spec(transition_result(manager, input, now, ttl))->Some_0.sequence > 0,
        decode_spec(transition_result(manager, input, now, ttl))->Some_0.previous is Hash,
        well_placed(decode_spec(transition_result(manager, input, now, ttl))->Some_0),
{
    law_transition_advances(manager, input, prior, now, ttl);
}

/// What a transition request is answered with at the time `now`: the
/// request `pca`, `prior_pca` is answered with `out_pca`, `out_error`.
///
/// A request without a PCA is answered with the error "PCA is required".
/// Any other is answered as the engine decides: with the next PCA and no
/// error, or with no PCA and what the caller is told of the fault.
pub open spec fn answered_at(
    manager: CredentialsManager,
    pca: Seq<u8>,
    prior_pca: Seq<u8>,
    now: u64,
    ttl: u64,
    out_pca: Seq<u8>,
    out_error: Seq<char>,
) -> bool {
    if pca.len() == 0 {
        out_pca.len() == 0 && out_error == "PCA is required"@
    } else {
        match transition_fault(manager, pca, prior_of(prior_pca), now, ttl) {
            None => out_pca == transition_result(manager, pca, now, ttl) && out_error.len() == 0,
            Some((kind, detail)) => out_pca.len() == 0 && out_error == public_text(kind, detail),
        }
    }
}

/// Answers a transition request at the time `now`.
///
/// A request without a PCA is answered with the error "PCA is required".
/// Any other is handed to [`transition`]; its PCA is passed on, or what
/// the caller is told of its error.
pub fn transition_at(
    manager: &CredentialsManager,
    request: &TransitionRequest,
    now: u64,
    ttl: u64,
) -> (out: TransitionResponse)
    requires
        manager.wf(),
    ensures
        answered_at(*manager, request.pca@, request.prior_pca@, now, ttl, out.pca@, out.error@),
{
    if request.pca.len() == 0 {
        return TransitionResponse { pca: Vec::new(), error: String::from_str("PCA is required") };
    }
    let prior = if request.prior_pca.len() == 0 {
        None
    } else {
        Some(request.prior_pca.as_slice())
    };
    match transition(manager, request.pca.as_slice(), prior, now, ttl) {
        Ok(pca) => TransitionResponse { pca, error: String::new() },
        Err(e) => TransitionResponse { pca: Vec::new(), error: e.public_message() },
    }
}

/// Answers a transition request at the current time, with the default
/// lifetime for the PCA it mints: the answer is that of [`transition_at`]
/// at some time, which the system clock decides. A request without a PCA
/// is answered with the error "PCA is required" at any time, and an
/// answer never holds both a PCA and an error.
pub fn transition_now(manager: &CredentialsManager, request: &TransitionRequest) -> (out:
    TransitionResponse)
    requires
        manager.wf(),
    ensures
        exists|now: u64| #[trigger]
            answered_at(
                *manager,
                request.pca@,
                request.prior_pca@,
                now,
                DEFAULT_TTL_SECONDS,
                out.pca@,
                out.error@,
            ),
        request.pca@.len() == 0 ==> out.pca@.len() == 0 && out.error@ == "PCA is required"@,
        out.pca@.len() == 0 || out.error@.len() == 0,
{
    let now = now_seconds();
    let out = transition_at(manager, request, now, DEFAULT_TTL_SECONDS);
    assert(answered_at(
        *manager,
        request.pca@,
        request.prior_pca@,
        now,
        DEFAULT_TTL_SECONDS,
        out.pca@,
        out.error@,
    ));
    out
}

} // verus!
