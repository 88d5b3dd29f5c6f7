//! Causal authority tokens (PCAs): what they hold, how they are written
//! as bytes and read back, and how they are hashed and signed.
//!
//! A PCA names a subject, the Trust Plane that issued it, its place in a
//! causal chain and what it claims, and carries a signature over all of
//! that. The encoding is deterministic: a PCA has one encoding, and an
//! encoding stands for one PCA.

use vstd::prelude::*;
use vstd::bytes::*;
use vstd::slice::*;
use vstd::string::*;
use sha2::{Digest, Sha256};
use crate::credentials::keys::{ed25519_accepts, ed25519_signature, KeyPair};
use crate::credentials::{CredentialsView, TrustPlaneCredentials};
use crate::error::{Error, ErrorKind};
use crate::wire::{
    fits, lemma_bytes_read_is_written, lemma_bytes_written_is_read, lemma_text_read_is_written,
    lemma_text_written_is_read, lemma_u32_read_is_written, lemma_u32_written_is_read,
    lemma_u64_read_is_written, lemma_u64_written_is_read, parse_bytes, parse_text, parse_u32,
    parse_u64, put_bytes, put_text, put_u32, put_u64, read_bytes, read_text, read_u32, read_u64,
    ser_bytes, ser_text, text_fits, text_is_short,
};

verus! {

/// First byte of every encoded PCA.
pub const FORMAT_VERSION: u8 = 1;

/// Length of a content hash in bytes.
pub const HASH_LEN: usize = 32;

/// One custom claim of a PCA.
#[derive(Debug)]
pub struct Claim {
    pub name: String,
    pub value: String,
}

/// What a PCA claims of its subject.
#[derive(Debug)]
pub struct PcaClaims {
    pub organization: String,
    pub scope: String,
    /// Custom claims, in the order the bridge mapping gave them
    pub custom: Vec<Claim>,
}

/// The reference of a PCA to the one before it in its chain.
#[derive(Debug)]
pub enum Predecessor {
    /// The PCA is the root of its chain.
    Root,
    /// The content hash of the preceding PCA.
    Hash(Vec<u8>),
}

/// A causal authority token.
#[derive(Debug)]
pub struct Pca {
    /// Whom the authority is of
    pub subject: String,
    /// The Trust Plane that minted this PCA
    pub issuer: String,
    /// Position in the chain, from 0
    pub sequence: u64,
    /// The PCA before this one
    pub previous: Predecessor,
    /// End of validity, in seconds of Unix time
    pub expires_at: u64,
    /// The claim set
    pub claims: PcaClaims,
    /// Identifier of the key that signed this PCA
    pub kid: String,
    /// Signature over every other field
    pub signature: Vec<u8>,
}

/// The mathematical form of a claim.
pub ghost struct ClaimView {
    pub name: Seq<char>,
    pub value: Seq<char>,
}

/// The mathematical form of a claim set.
pub ghost struct ClaimsView {
    pub organization: Seq<char>,
    pub scope: Seq<char>,
    pub custom: Seq<ClaimView>,
}

/// The mathematical form of a predecessor reference.
pub ghost enum PredecessorView {
    Root,
    Hash(Seq<u8>),
}

/// The mathematical form of a PCA.
pub ghost struct PcaView {
    pub subject: Seq<char>,
    pub issuer: Seq<char>,
    pub sequence: u64,
    pub previous: PredecessorView,
    pub expires_at: u64,
    pub claims: ClaimsView,
    pub kid: Seq<char>,
    pub signature: Seq<u8>,
}

impl View for Claim {
    type V = ClaimView;

    open spec fn view(&self) -> ClaimView {
        ClaimView { name: self.name@, value: self.value@ }
    }
}

impl DeepView for Claim {
    type V = ClaimView;

    open spec fn deep_view(&self) -> ClaimView {
        self.view()
    }
}

impl View for PcaClaims {
    type V = ClaimsView;

    open spec fn view(&self) -> ClaimsView {
        ClaimsView {
            organization: self.organization@,
            scope: self.scope@,
            custom: self.custom.deep_view(),
        }
    }
}

impl View for Predecessor {
    type V = PredecessorView;

    open spec fn view(&self) -> PredecessorView {
        match self {
            Predecessor::Root => PredecessorView::Root,
            Predecessor::Hash(h) => PredecessorView::Hash(h@),
        }
    }
}

impl View for Pca {
    type V = PcaView;

    open spec fn view(&self) -> PcaView {
        PcaView {
            subject: self.subject@,
            issuer: self.issuer@,
            sequence: self.sequence,
            previous: self.previous@,
            expires_at: self.expires_at,
            claims: self.claims@,
            kid: self.kid@,
            signature: self.signature@,
        }
    }
}

impl DeepView for Pca {
    type V = PcaView;

    open spec fn deep_view(&self) -> PcaView {
        self.view()
    }
}

impl Clone for Claim {
    fn clone(&self) -> (out: Self)
        ensures
            out@ == self@,
    {
        Claim { name: self.name.clone(), value: self.value.clone() }
    }
}

impl Clone for PcaClaims {
    fn clone(&self) -> (out: Self)
        ensures
            out@ == self@,
    {
        let mut custom: Vec<Claim> = Vec::new();
        let mut i: usize = 0;
        while i < self.custom.len()
            invariant
                i <= self.custom.len(),
                custom.len() == i,
                forall|j: int| 0 <= j < i ==> custom@[j]@ == self.custom@[j]@,
            decreases self.custom.len() - i,
        {
            custom.push(self.custom[i].clone());
            i += 1;
        }
        assert(custom.deep_view() =~= self.custom.deep_view());
        PcaClaims {
            organization: self.organization.clone(),
            scope: self.scope.clone(),
            custom,
        }
    }
}

impl Clone for Predecessor {
    fn clone(&self) -> (out: Self)
        ensures
            out@ == self@,
    {
        match self {
            Predecessor::Root => Predecessor::Root,
            Predecessor::Hash(h) => Predecessor::Hash(slice_to_vec(h.as_slice())),
        }
    }
}

impl Clone for Pca {
    fn clone(&self) -> (out: Self)
        ensures
            out@ == self@,
    {
        Pca {
            subject: self.subject.clone(),
            issuer: self.issuer.clone(),
            sequence: self.sequence,
            previous: self.previous.clone(),
            expires_at: self.expires_at,
            claims: self.claims.clone(),
            kid: self.kid.clone(),
            signature: slice_to_vec(self.signature.as_slice()),
        }
    }
}

/// Both texts of the claim can be written down.
pub open spec fn claim_fits(c: ClaimView) -> bool {
    text_fits(c.name) && text_fits(c.value)
}

/// Every text of the claim set, and the number of its custom claims, can
/// be written down.
pub open spec fn claims_fit(c: ClaimsView) -> bool {
    &&& text_fits(c.organization)
    &&& text_fits(c.scope)
    &&& fits(c.custom.len())
    &&& forall|i: int| 0 <= i < c.custom.len() ==> claim_fits(#[trigger] c.custom[i])
}

/// A hash, where there is one, has the length of a hash.
pub open spec fn previous_fits(p: PredecessorView) -> bool {
    p matches PredecessorView::Hash(h) ==> h.len() == HASH_LEN
}

/// Every field of `p` but the signature has a length that the encoding
/// can write down.
pub open spec fn signable(p: PcaView) -> bool {
    &&& text_fits(p.subject)
    &&& text_fits(p.issuer)
    &&& previous_fits(p.previous)
    &&& claims_fit(p.claims)
    &&& text_fits(p.kid)
}

/// The place of `p` agrees with its predecessor reference: a PCA at
/// sequence 0 names no predecessor, and any other names one.
pub open spec fn well_placed(p: PcaView) -> bool {
    (p.sequence == 0) == (p.previous is Root)
}

/// Every field of `p` has a length that the encoding can write down.
pub open spec fn encodable(p: PcaView) -> bool {
    &&& text_fits(p.subject)
    &&& text_fits(p.issuer)
    &&& previous_fits(p.previous)
    &&& claims_fit(p.claims)
    &&& text_fits(p.kid)
    &&& fits(p.signature.len())
}

/// A claim: its name, then its value.
pub open spec fn ser_claim(c: ClaimView) -> Seq<u8> {
    ser_text(c.name) + ser_text(c.value)
}

/// Claims one after the other.
pub open spec fn ser_claim_list(cs: Seq<ClaimView>) -> Seq<u8>
    decreases cs.len(),
{
    if cs.len() == 0 {
        Seq::empty()
    } else {
        ser_claim(cs[0]) + ser_claim_list(cs.drop_first())
    }
}

/// A claim set: organization, scope, the number of custom claims in four
/// bytes, then the custom claims.
pub open spec fn ser_claims(c: ClaimsView) -> Seq<u8> {
    ser_text(c.organization) + ser_text(c.scope) + spec_u32_to_le_bytes(c.custom.len() as u32)
        + ser_claim_list(c.custom)
}

/// A predecessor reference: the byte 0 for a root, the byte 1 and the hash
/// for any other PCA.
pub open spec fn ser_previous(p: PredecessorView) -> Seq<u8> {
    match p {
        PredecessorView::Root => seq![0u8],
        PredecessorView::Hash(h) => seq![1u8] + h,
    }
}

/// The head of a PCA: the format version, the subject, the issuer.
pub open spec fn ser_identity(subject: Seq<char>, issuer: Seq<char>) -> Seq<u8> {
    seq![FORMAT_VERSION] + ser_text(subject) + ser_text(issuer)
}

/// The place of a PCA in its chain and in time: sequence number,
/// predecessor reference, end of validity.
pub open spec fn ser_position(sequence: u64, previous: PredecessorView, expires_at: u64) -> Seq<u8> {
    spec_u64_to_le_bytes(sequence) + ser_previous(previous) + spec_u64_to_le_bytes(expires_at)
}

/// The bytes that the signature of `p` is made over: every field but the
/// signature, in order.
pub open spec fn signing_bytes(p: PcaView) -> Seq<u8> {
    ser_identity(p.subject, p.issuer) + ser_position(p.sequence, p.previous, p.expires_at)
        + ser_claims(p.claims) + ser_text(p.kid)
}

/// The encoding of `p`: what is signed, then the signature.
pub open spec fn encode_spec(p: PcaView) -> Seq<u8> {
    signing_bytes(p) + ser_bytes(p.signature)
}

/// Takes one claim off the front of `s`.
pub open spec fn parse_claim(s: Seq<u8>) -> Option<(ClaimView, Seq<u8>)> {
    match parse_text(s) {
        Some((name, r1)) => match parse_text(r1) {
            Some((value, r2)) => Some((ClaimView { name, value }, r2)),
            None => None,
        },
        None => None,
    }
}

/// Takes `n` claims off the front of `s`.
pub open spec fn parse_claim_list(n: nat, s: Seq<u8>) -> Option<(Seq<ClaimView>, Seq<u8>)>
    decreases n,
{
    if n == 0 {
        Some((Seq::empty(), s))
    } else {
        match parse_claim(s) {
            Some((c, r1)) => match parse_claim_list((n - 1) as nat, r1) {
                Some((cs, r2)) => Some((seq![c] + cs, r2)),
                None => None,
            },
            None => None,
        }
    }
}

/// Takes a claim set off the front of `s`.
pub open spec fn parse_claims(s: Seq<u8>) -> Option<(ClaimsView, Seq<u8>)> {
    match parse_text(s) {
        Some((organization, r1)) => match parse_text(r1) {
            Some((scope, r2)) => match parse_u32(r2) {
                Some((n, r3)) => match parse_claim_list(n as nat, r3) {
                    Some((custom, r4)) => Some((ClaimsView { organization, scope, custom }, r4)),
                    None => None,
                },
                None => None,
            },
            None => None,
        },
        None => None,
    }
}

/// Takes a predecessor reference off the front of `s`.
pub open spec fn parse_previous(s: Seq<u8>) -> Option<(PredecessorView, Seq<u8>)> {
    if s.len() >= 1 && s[0] == 0 {
        Some((PredecessorView::Root, s.skip(1)))
    } else if s.len() >= 1 + HASH_LEN && s[0] == 1 {
        Some((PredecessorView::Hash(s.subrange(1, 1 + HASH_LEN as int)), s.skip(1 + HASH_LEN as int)))
    } else {
        None
    }
}

/// Takes the head of a PCA off the front of `s`: subject and issuer behind
/// the format version.
pub open spec fn parse_identity(s: Seq<u8>) -> Option<((Seq<char>, Seq<char>), Seq<u8>)> {
    if s.len() >= 1 && s[0] == FORMAT_VERSION {
        match parse_text(s.skip(1)) {
            Some((subject, r1)) => match parse_text(r1) {
                Some((issuer, r2)) => Some(((subject, issuer), r2)),
                None => None,
            },
            None => None,
        }
    } else {
        None
    }
}

/// Takes sequence number, predecessor reference and end of validity off
/// the front of `s`.
pub open spec fn parse_position(s: Seq<u8>) -> Option<((u64, PredecessorView, u64), Seq<u8>)> {
    match parse_u64(s) {
        Some((sequence, r1)) => match parse_previous(r1) {
            Some((previous, r2)) => match parse_u64(r2) {
                Some((expires_at, r3)) => Some(((sequence, previous, expires_at), r3)),
                None => None,
            },
            None => None,
        },
        None => None,
    }
}

/// Takes one PCA off the front of `s`.
pub open spec fn parse_pca(s: Seq<u8>) -> Option<(PcaView, Seq<u8>)> {
    match parse_identity(s) {
        Some(((subject, issuer), r1)) => match parse_position(r1) {
            Some(((sequence, previous, expires_at), r2)) => match parse_claims(r2) {
                Some((claims, r3)) => match parse_text(r3) {
                    Some((kid, r4)) => match parse_bytes(r4) {
                        Some((signature, r5)) => Some(
                            (
                                PcaView {
                                    subject,
                                    issuer,
                                    sequence,
                                    previous,
                                    expires_at,
                                    claims,
                                    kid,
                                    signature,
                                },
                                r5,
                            ),
                        ),
                        None => None,
                    },
                    None => None,
                },
                None => None,
            },
            None => None,
        },
        None => None,
    }
}

/// The PCA that `bytes` is the encoding of, where it is one: the bytes
/// hold one PCA and nothing after it.
pub open spec fn decode_spec(bytes: Seq<u8>) -> Option<PcaView> {
    match parse_pca(bytes) {
        Some((p, rest)) => if rest.len() == 0 {
            Some(p)
        } else {
            None
        },
        None => None,
    }
}

proof fn lemma_glue3(a: Seq<u8>, b: Seq<u8>, c: Seq<u8>, r: Seq<u8>)
    ensures
        a + (b + (c + r)) == a + b + c + r,
{
    assert(a + (b + (c + r)) =~= a + b + c + r);
}

proof fn lemma_glue4(a: Seq<u8>, b: Seq<u8>, c: Seq<u8>, d: Seq<u8>, r: Seq<u8>)
    ensures
        a + (b + (c + (d + r))) == a + b + c + d + r,
{
    assert(a + (b + (c + (d + r))) =~= a + b + c + d + r);
}

proof fn lemma_glue5(a: Seq<u8>, b: Seq<u8>, c: Seq<u8>, d: Seq<u8>, e: Seq<u8>, r: Seq<u8>)
    ensures
        a + (b + (c + (d + (e + r)))) == a + b + c + d + e + r,
{
    assert(a + (b + (c + (d + (e + r)))) =~= a + b + c + d + e + r);
}

proof fn lemma_claim_written_is_read(c: ClaimView, rest: Seq<u8>)
    requires
        claim_fits(c),
    ensures
        parse_claim(ser_claim(c) + rest) == Some((c, rest)),
{
    lemma_text_written_is_read(c.name, ser_text(c.value) + rest);
    lemma_text_written_is_read(c.value, rest);
    assert(ser_claim(c) + rest =~= ser_text(c.name) + (ser_text(c.value) + rest));
}

proof fn lemma_claim_read_is_written(s: Seq<u8>)
    requires
        parse_claim(s) is Some,
    ensures
        claim_fits(parse_claim(s)->Some_0.0),
        s == ser_claim(parse_claim(s)->Some_0.0) + parse_claim(s)->Some_0.1,
{
    lemma_text_read_is_written(s);
    let (name, r1) = parse_text(s)->Some_0;
    lemma_text_read_is_written(r1);
    let (value, r2) = parse_text(r1)->Some_0;
    assert(s =~= (ser_text(name) + ser_text(value)) + r2);
}

proof fn lemma_claim_list_written_is_read(cs: Seq<ClaimView>, rest: Seq<u8>)
    requires
        forall|i: int| 0 <= i < cs.len() ==> claim_fits(#[trigger] cs[i]),
    ensures
        parse_claim_list(cs.len(), ser_claim_list(cs) + rest) == Some((cs, rest)),
    decreases cs.len(),
{
    if cs.len() == 0 {
        assert(ser_claim_list(cs) + rest =~= rest);
        assert(cs =~= Seq::<ClaimView>::empty());
    } else {
        let tail = cs.drop_first();
        assert forall|i: int| 0 <= i < tail.len() implies claim_fits(#[trigger] tail[i]) by {
            assert(tail[i] == cs[i + 1]);
        }
        lemma_claim_list_written_is_read(tail, rest);
        lemma_claim_written_is_read(cs[0], ser_claim_list(tail) + rest);
        assert(ser_claim_list(cs) + rest =~= ser_claim(cs[0]) + (ser_claim_list(tail) + rest));
        assert(seq![cs[0]] + tail =~= cs);
    }
}

proof fn lemma_claim_list_read_is_written(n: nat, s: Seq<u8>)
    requires
        parse_claim_list(n, s) is Some,
    ensures
        parse_claim_list(n, s)->Some_0.0.len() == n,
        forall|i: int|
            0 <= i < n ==> claim_fits(#[trigger] parse_claim_list(n, s)->Some_0.0[i]),
        s == ser_claim_list(parse_claim_list(n, s)->Some_0.0) + parse_claim_list(n, s)->Some_0.1,
    decreases n,
{
    if n == 0 {
        assert(s =~= ser_claim_list(Seq::<ClaimView>::empty()) + s);
    } else {
        lemma_claim_read_is_written(s);
        let (c, r1) = parse_claim(s)->Some_0;
        lemma_claim_list_read_is_written((n - 1) as nat, r1);
        let (cs, r2) = parse_claim_list((n - 1) as nat, r1)->Some_0;
        let all = seq![c] + cs;
        assert(all.drop_first() =~= cs);
        assert(all[0] == c);
        assert(s =~= (ser_claim(c) + ser_claim_list(cs)) + r2);
        assert forall|i: int| 0 <= i < n implies claim_fits(#[trigger] all[i]) by {
            if i > 0 {
                assert(all[i] == cs[i - 1]);
            }
        }
    }
}

proof fn lemma_claims_written_is_read(c: ClaimsView, rest: Seq<u8>)
    requires
        claims_fit(c),
    ensures
        parse_claims(ser_claims(c) + rest) == Some((c, rest)),
{
    let n = c.custom.len() as u32;
    let t3 = ser_claim_list(c.custom) + rest;
    let t2 = spec_u32_to_le_bytes(n) + t3;
    let t1 = ser_text(c.scope) + t2;
    lemma_glue4(
        ser_text(c.organization),
        ser_text(c.scope),
        spec_u32_to_le_bytes(n),
        ser_claim_list(c.custom),
        rest,
    );
    lemma_text_written_is_read(c.organization, t1);
    lemma_text_written_is_read(c.scope, t2);
    lemma_u32_written_is_read(n, t3);
    lemma_claim_list_written_is_read(c.custom, rest);
}

proof fn lemma_claims_read_is_written(s: Seq<u8>)
    requires
        parse_claims(s) is Some,
    ensures
        claims_fit(parse_claims(s)->Some_0.0),
        s == ser_claims(parse_claims(s)->Some_0.0) + parse_claims(s)->Some_0.1,
{
    lemma_text_read_is_written(s);
    let (organization, r1) = parse_text(s)->Some_0;
    lemma_text_read_is_written(r1);
    let (scope, r2) = parse_text(r1)->Some_0;
    lemma_u32_read_is_written(r2);
    let (n, r3) = parse_u32(r2)->Some_0;
    lemma_claim_list_read_is_written(n as nat, r3);
    let (custom, r4) = parse_claim_list(n as nat, r3)->Some_0;
    let c = ClaimsView { organization, scope, custom };
    assert(custom.len() == n as nat);
    lemma_glue4(
        ser_text(organization),
        ser_text(scope),
        spec_u32_to_le_bytes(n),
        ser_claim_list(custom),
        r4,
    );
}

proof fn lemma_previous_written_is_read(p: PredecessorView, rest: Seq<u8>)
    requires
        previous_fits(p),
    ensures
        parse_previous(ser_previous(p) + rest) == Some((p, rest)),
{
    let s = ser_previous(p) + rest;
    match p {
        PredecessorView::Root => {
            assert(s.skip(1) =~= rest);
        },
        PredecessorView::Hash(h) => {
            assert(s.subrange(1, 1 + HASH_LEN as int) =~= h);
            assert(s.skip(1 + HASH_LEN as int) =~= rest);
        },
    }
}

proof fn lemma_previous_read_is_written(s: Seq<u8>)
    requires
        parse_previous(s) is Some,
    ensures
        previous_fits(parse_previous(s)->Some_0.0),
        s == ser_previous(parse_previous(s)->Some_0.0) + parse_previous(s)->Some_0.1,
{
    let (p, rest) = parse_previous(s)->Some_0;
    assert(s =~= ser_previous(p) + rest);
}

proof fn lemma_identity_written_is_read(subject: Seq<char>, issuer: Seq<char>, rest: Seq<u8>)
    requires
        text_fits(subject),
        text_fits(issuer),
    ensures
        parse_identity(ser_identity(subject, issuer) + rest) == Some(((subject, issuer), rest)),
{
    let s = ser_identity(subject, issuer) + rest;
    let t1 = ser_text(issuer) + rest;
    assert(s.skip(1) =~= ser_text(subject) + t1);
    lemma_text_written_is_read(subject, t1);
    lemma_text_written_is_read(issuer, rest);
}

proof fn lemma_identity_read_is_written(s: Seq<u8>)
    requires
        parse_identity(s) is Some,
    ensures
        text_fits(parse_identity(s)->Some_0.0.0),
        text_fits(parse_identity(s)->Some_0.0.1),
        s == ser_identity(parse_identity(s)->Some_0.0.0, parse_identity(s)->Some_0.0.1)
            + parse_identity(s)->Some_0.1,
{
    lemma_text_read_is_written(s.skip(1));
    let (subject, r1) = parse_text(s.skip(1))->Some_0;
    lemma_text_read_is_written(r1);
    let (issuer, r2) = parse_text(r1)->Some_0;
    assert(s =~= seq![FORMAT_VERSION] + s.skip(1));
    assert(s =~= ser_identity(subject, issuer) + r2);
}

proof fn lemma_position_written_is_read(
    sequence: u64,
    previous: PredecessorView,
    expires_at: u64,
    rest: Seq<u8>,
)
    requires
        previous_fits(previous),
    ensures
        parse_position(ser_position(sequence, previous, expires_at) + rest) == Some(
            ((sequence, previous, expires_at), rest),
        ),
{
    let t2 = spec_u64_to_le_bytes(expires_at) + rest;
    let t1 = ser_previous(previous) + t2;
    lemma_glue3(
        spec_u64_to_le_bytes(sequence),
        ser_previous(previous),
        spec_u64_to_le_bytes(expires_at),
        rest,
    );
    lemma_u64_written_is_read(sequence, t1);
    lemma_previous_written_is_read(previous, t2);
    lemma_u64_written_is_read(expires_at, rest);
}

proof fn lemma_position_read_is_written(s: Seq<u8>)
    requires
        parse_position(s) is Some,
    ensures
        previous_fits(parse_position(s)->Some_0.0.1),
        s == ser_position(
            parse_position(s)->Some_0.0.0,
            parse_position(s)->Some_0.0.1,
            parse_position(s)->Some_0.0.2,
        ) + parse_position(s)->Some_0.1,
{
    lemma_u64_read_is_written(s);
    let (sequence, r1) = parse_u64(s)->Some_0;
    lemma_previous_read_is_written(r1);
    let (previous, r2) = parse_previous(r1)->Some_0;
    lemma_u64_read_is_written(r2);
    let (expires_at, r3) = parse_u64(r2)->Some_0;
    lemma_glue3(
        spec_u64_to_le_bytes(sequence),
        ser_previous(previous),
        spec_u64_to_le_bytes(expires_at),
        r3,
    );
}

/// What was written for an encodable PCA is read back as that PCA.
pub proof fn lemma_pca_written_is_read(p: PcaView, rest: Seq<u8>)
    requires
        encodable(p),
    ensures
        parse_pca(encode_spec(p) + rest) == Some((p, rest)),
{
    let t4 = ser_bytes(p.signature) + rest;
    let t3 = ser_text(p.kid) + t4;
    let t2 = ser_claims(p.claims) + t3;
    let t1 = ser_position(p.sequence, p.previous, p.expires_at) + t2;
    lemma_glue5(
        ser_identity(p.subject, p.issuer),
        ser_position(p.sequence, p.previous, p.expires_at),
        ser_claims(p.claims),
        ser_text(p.kid),
        ser_bytes(p.signature),
        rest,
    );
    lemma_identity_written_is_read(p.subject, p.issuer, t1);
    lemma_position_written_is_read(p.sequence, p.previous, p.expires_at, t2);
    lemma_claims_written_is_read(p.claims, t3);
    lemma_text_written_is_read(p.kid, t4);
    lemma_bytes_written_is_read(p.signature, rest);
}

/// What is read as a PCA was written for it, and the PCA is encodable.
pub proof fn lemma_pca_read_is_written(s: Seq<u8>)
    requires
        parse_pca(s) is Some,
    ensures
        encodable(parse_pca(s)->Some_0.0),
        s == encode_spec(parse_pca(s)->Some_0.0) + parse_pca(s)->Some_0.1,
{
    lemma_identity_read_is_written(s);
    let ((subject, issuer), r1) = parse_identity(s)->Some_0;
    lemma_position_read_is_written(r1);
    let ((sequence, previous, expires_at), r2) = parse_position(r1)->Some_0;
    lemma_claims_read_is_written(r2);
    let (claims, r3) = parse_claims(r2)->Some_0;
    lemma_text_read_is_written(r3);
    let (kid, r4) = parse_text(r3)->Some_0;
    lemma_bytes_read_is_written(r4);
    let (signature, r5) = parse_bytes(r4)->Some_0;
    let p = parse_pca(s)->Some_0.0;
    let a = ser_identity(subject, issuer);
    let b = ser_position(sequence, previous, expires_at);
    let c = ser_claims(claims);
    let d = ser_text(kid);
    let e = ser_bytes(signature);
    assert(r4 == e + r5);
    assert(r3 == d + r4);
    assert(r2 == c + r3);
    assert(r1 == b + r2);
    assert(s == a + r1);
    lemma_glue5(a, b, c, d, e, r5);
    assert(p.subject == subject && p.issuer == issuer && p.sequence == sequence && p.previous
        == previous && p.expires_at == expires_at && p.claims == claims && p.kid == kid
        && p.signature == signature);
}

/// Decoding undoes encoding.
pub proof fn law_decode_encode(p: PcaView)
    requires
        encodable(p),
    ensures
        decode_spec(encode_spec(p)) == Some(p),
{
    lemma_pca_written_is_read(p, Seq::empty());
    assert(encode_spec(p) + Seq::<u8>::empty() =~= encode_spec(p));
}

/// Only the encoding of a PCA decodes to it: two byte strings that decode
/// to the same PCA are the same.
pub proof fn law_encode_decode(bytes: Seq<u8>)
    requires
        decode_spec(bytes) is Some,
    ensures
        encodable(decode_spec(bytes)->Some_0),
        encode_spec(decode_spec(bytes)->Some_0) == bytes,
{
    lemma_pca_read_is_written(bytes);
    let (p, rest) = parse_pca(bytes)->Some_0;
    assert(encode_spec(p) + rest =~= encode_spec(p));
}

/// Bytes that were altered do not decode to the PCA they decoded to
/// before: no two encodings stand for one PCA.
pub proof fn law_altered_bytes_differ(intact: Seq<u8>, altered: Seq<u8>)
    requires
        decode_spec(intact) is Some,
        altered != intact,
    ensures
        decode_spec(altered) != decode_spec(intact),
{
    if decode_spec(altered) is Some {
        law_encode_decode(intact);
        law_encode_decode(altered);
    }
}

proof fn lemma_claim_list_push(cs: Seq<ClaimView>, c: ClaimView)
    ensures
        ser_claim_list(cs.push(c)) == ser_claim_list(cs) + ser_claim(c),
    decreases cs.len(),
{
    if cs.len() == 0 {
        assert(cs.push(c).drop_first() =~= Seq::<ClaimView>::empty());
        assert(ser_claim_list(cs.push(c).drop_first()) =~= Seq::<u8>::empty());
        assert(ser_claim_list(cs.push(c)) =~= ser_claim(c));
        assert(ser_claim_list(cs) + ser_claim(c) =~= ser_claim(c));
    } else {
        lemma_claim_list_push(cs.drop_first(), c);
        assert(cs.push(c).drop_first() =~= cs.drop_first().push(c));
        assert(ser_claim_list(cs.push(c)) =~= ser_claim_list(cs) + ser_claim(c));
    }
}

/// The parse result `r` with `acc` put in front of its claims.
pub open spec fn prepend(acc: Seq<ClaimView>, r: Option<(Seq<ClaimView>, Seq<u8>)>) -> Option<
    (Seq<ClaimView>, Seq<u8>),
> {
    match r {
        Some((cs, rest)) => Some((acc + cs, rest)),
        None => None,
    }
}

proof fn lemma_claim_list_step(acc: Seq<ClaimView>, n: nat, s: Seq<u8>)
    requires
        n > 0,
    ensures
        parse_claim(s) is None ==> prepend(acc, parse_claim_list(n, s)) is None,
        parse_claim(s) is Some ==> prepend(acc, parse_claim_list(n, s)) == prepend(
            acc.push(parse_claim(s)->Some_0.0),
            parse_claim_list((n - 1) as nat, parse_claim(s)->Some_0.1),
        ),
{
    if parse_claim(s) is Some {
        let (c, r1) = parse_claim(s)->Some_0;
        if parse_claim_list((n - 1) as nat, r1) is Some {
            let (cs, r2) = parse_claim_list((n - 1) as nat, r1)->Some_0;
            assert(acc + (seq![c] + cs) =~= acc.push(c) + cs);
        }
    }
}

impl Pca {
    /// Whether the place of this PCA agrees with its predecessor
    /// reference.
    pub fn is_well_placed(&self) -> (ok: bool)
        ensures
            ok == well_placed(self@),
    {
        match &self.previous {
            Predecessor::Root => self.sequence == 0,
            Predecessor::Hash(_) => self.sequence != 0,
        }
    }
}

impl Predecessor {
    /// Whether a hash, where there is one, has the length of a hash.
    pub fn fits(&self) -> (ok: bool)
        ensures
            ok == previous_fits(self@),
    {
        match self {
            Predecessor::Root => true,
            Predecessor::Hash(h) => h.len() == HASH_LEN,
        }
    }
}

impl PcaClaims {
    /// Whether every text of the claim set can be written down.
    pub fn fit(&self) -> (ok: bool)
        ensures
            ok == claims_fit(self@),
    {
        if !text_is_short(self.organization.as_str()) || !text_is_short(self.scope.as_str())
            || self.custom.len() > 0xffff_ffff {
            return false;
        }
        let mut i: usize = 0;
        while i < self.custom.len()
            invariant
                i <= self.custom.len(),
                forall|j: int| 0 <= j < i ==> claim_fits(#[trigger] self.custom.deep_view()[j]),
            decreases self.custom.len() - i,
        {
            if !text_is_short(self.custom[i].name.as_str()) || !text_is_short(
                self.custom[i].value.as_str(),
            ) {
                assert(!claim_fits(self.custom.deep_view()[i as int]));
                return false;
            }
            i += 1;
        }
        true
    }

    fn write(&self, out: &mut Vec<u8>)
        requires
            claims_fit(self@),
        ensures
            final(out)@ == old(out)@ + ser_claims(self@),
    {
        let ghost base = out@;
        put_text(out, self.organization.as_str());
        put_text(out, self.scope.as_str());
        put_u32(out, self.custom.len() as u32);
        let ghost head = out@;
        let ghost all = self.custom.deep_view();
        let mut i: usize = 0;
        while i < self.custom.len()
            invariant
                i <= self.custom.len(),
                all == self.custom.deep_view(),
                forall|j: int| 0 <= j < all.len() ==> claim_fits(#[trigger] all[j]),
                out@ == head + ser_claim_list(all.take(i as int)),
            decreases self.custom.len() - i,
        {
            let ghost before = out@;
            assert(claim_fits(all[i as int]));
            put_text(out, self.custom[i].name.as_str());
            put_text(out, self.custom[i].value.as_str());
            proof {
                lemma_claim_list_push(all.take(i as int), all[i as int]);
                assert(all.take(i + 1) =~= all.take(i as int).push(all[i as int]));
                assert(out@ =~= before + ser_claim(all[i as int]));
            }
            i += 1;
        }
        assert(all.take(i as int) =~= all);
        assert(out@ =~= base + ser_claims(self@));
    }

    fn read(bytes: &[u8], pos: usize) -> (out: Option<(PcaClaims, usize)>)
        requires
            pos <= bytes@.len(),
        ensures
            match out {
                Some((c, next)) => pos <= next <= bytes@.len() && parse_claims(
                    bytes@.skip(pos as int),
                ) == Some((c@, bytes@.skip(next as int))),
                None => parse_claims(bytes@.skip(pos as int)) is None,
            },
    {
        let (organization, at1) = match read_text(bytes, pos) {
            Some(r) => r,
            None => {
                return None;
            },
        };
        let (scope, at2) = match read_text(bytes, at1) {
            Some(r) => r,
            None => {
                return None;
            },
        };
        let (n, at3) = match read_u32(bytes, at2) {
            Some(r) => r,
            None => {
                return None;
            },
        };
        let mut custom: Vec<Claim> = Vec::new();
        let mut at: usize = at3;
        let mut i: u32 = 0;
        while i < n
            invariant
                i <= n,
                at3 <= at <= bytes@.len(),
                custom.len() == i,
                pos <= at1 <= at2 <= at3,
                parse_text(bytes@.skip(pos as int)) == Some(
                    (organization@, bytes@.skip(at1 as int)),
                ),
                parse_text(bytes@.skip(at1 as int)) == Some((scope@, bytes@.skip(at2 as int))),
                parse_u32(bytes@.skip(at2 as int)) == Some((n, bytes@.skip(at3 as int))),
                parse_claim_list(n as nat, bytes@.skip(at3 as int)) == prepend(
                    custom.deep_view(),
                    parse_claim_list((n - i) as nat, bytes@.skip(at as int)),
                ),
            decreases n - i,
        {
            proof {
                lemma_claim_list_step(
                    custom.deep_view(),
                    (n - i) as nat,
                    bytes@.skip(at as int),
                );
            }
            let ghost before = custom.deep_view();
            let (name, a1) = match read_text(bytes, at) {
                Some(r) => r,
                None => {
                    return None;
                },
            };
            let (value, a2) = match read_text(bytes, a1) {
                Some(r) => r,
                None => {
                    return None;
                },
            };
            let claim = Claim { name, value };
            custom.push(claim);
            assert(custom.deep_view() =~= before.push(claim@));
            at = a2;
            i += 1;
        }
        assert(custom.deep_view() + Seq::<ClaimView>::empty() =~= custom.deep_view());
        Some((PcaClaims { organization, scope, custom }, at))
    }
}

impl Pca {
    /// Whether every field but the signature can be written down.
    pub fn is_signable(&self) -> (ok: bool)
        ensures
            ok == signable(self@),
    {
        text_is_short(self.subject.as_str()) && text_is_short(self.issuer.as_str())
            && self.previous.fits() && self.claims.fit() && text_is_short(self.kid.as_str())
    }

    /// Whether every field can be written down.
    pub fn is_encodable(&self) -> (ok: bool)
        ensures
            ok == encodable(self@),
    {
        self.is_signable() && self.signature.len() <= 0xffff_ffff
    }

    fn write_signed_part(&self, out: &mut Vec<u8>)
        requires
            signable(self@),
        ensures
            final(out)@ == old(out)@ + signing_bytes(self@),
    {
        let ghost base = out@;
        out.push(FORMAT_VERSION);
        put_text(out, self.subject.as_str());
        put_text(out, self.issuer.as_str());
        assert(out@ =~= base + ser_identity(self@.subject, self@.issuer));
        let ghost mid = out@;
        put_u64(out, self.sequence);
        match &self.previous {
            Predecessor::Root => {
                out.push(0u8);
            },
            Predecessor::Hash(h) => {
                out.push(1u8);
                out.extend_from_slice(h.as_slice());
            },
        }
        put_u64(out, self.expires_at);
        assert(out@ =~= mid + ser_position(self.sequence, self@.previous, self.expires_at));
        self.claims.write(out);
        put_text(out, self.kid.as_str());
        assert(out@ =~= base + signing_bytes(self@));
    }

    /// The bytes that the signature of a signable PCA is made over.
    pub(crate) fn signed_bytes(&self) -> (out: Vec<u8>)
        requires
            signable(self@),
        ensures
            out@ == signing_bytes(self@),
    {
        let mut out: Vec<u8> = Vec::new();
        self.write_signed_part(&mut out);
        assert(out@ =~= signing_bytes(self@));
        out
    }

    /// The encoding of an encodable PCA.
    pub(crate) fn encoded(&self) -> (out: Vec<u8>)
        requires
            encodable(self@),
        ensures
            out@ == encode_spec(self@),
    {
        let mut out: Vec<u8> = Vec::new();
        self.write_signed_part(&mut out);
        put_bytes(&mut out, self.signature.as_slice());
        assert(out@ =~= encode_spec(self@));
        out
    }

    /// The bytes that the signature is made over, where the fields can be
    /// written down.
    pub fn signing_input(&self) -> (out: Option<Vec<u8>>)
        ensures
            match out {
                Some(b) => signable(self@) && b@ == signing_bytes(self@),
                None => !signable(self@),
            },
    {
        if self.is_signable() {
            Some(self.signed_bytes())
        } else {
            None
        }
    }

    /// The encoding of this PCA, where its fields can be written down.
    pub fn encode(&self) -> (out: Option<Vec<u8>>)
        ensures
            match out {
                Some(b) => encodable(self@) && b@ == encode_spec(self@),
                None => !encodable(self@),
            },
    {
        if self.is_encodable() {
            Some(self.encoded())
        } else {
            None
        }
    }

    fn read_previous(bytes: &[u8], pos: usize) -> (out: Option<(Predecessor, usize)>)
        requires
            pos <= bytes@.len(),
        ensures
            match out {
                Some((p, next)) => pos <= next <= bytes@.len() && parse_previous(
                    bytes@.skip(pos as int),
                ) == Some((p@, bytes@.skip(next as int))),
                None => parse_previous(bytes@.skip(pos as int)) is None,
            },
    {
        if bytes.len() - pos < 1 {
            return None;
        }
        let tag = bytes[pos];
        assert(bytes@.skip(pos as int)[0] == tag);
        if tag == 0 {
            assert(bytes@.skip(pos as int).skip(1) =~= bytes@.skip(pos + 1));
            Some((Predecessor::Root, pos + 1))
        } else if tag == 1 && bytes.len() - pos >= 1 + HASH_LEN {
            let h = slice_to_vec(slice_subrange(bytes, pos + 1, pos + 1 + HASH_LEN));
            assert(bytes@.skip(pos as int).subrange(1, 1 + HASH_LEN as int) =~= h@);
            assert(bytes@.skip(pos as int).skip(1 + HASH_LEN as int) =~= bytes@.skip(
                pos + 1 + HASH_LEN,
            ));
            Some((Predecessor::Hash(h), pos + 1 + HASH_LEN))
        } else {
            None
        }
    }

    /// Reads a PCA from its encoding. Bytes that are the encoding of no PCA
    /// give nothing.
    pub fn decode(bytes: &[u8]) -> (out: Option<Pca>)
        ensures
            out.deep_view() == decode_spec(bytes@),
    {
        assert(bytes@.skip(0) =~= bytes@);
        if bytes.len() < 1 || bytes[0] != FORMAT_VERSION {
            return None;
        }
        assert(bytes@.skip(0).skip(1) =~= bytes@.skip(1));
        let (subject, at1) = match read_text(bytes, 1) {
            Some(r) => r,
            None => {
                return None;
            },
        };
        let (issuer, at2) = match read_text(bytes, at1) {
            Some(r) => r,
            None => {
                return None;
            },
        };
        let (sequence, at3) = match read_u64(bytes, at2) {
            Some(r) => r,
            None => {
                return None;
            },
        };
        let (previous, at4) = match Pca::read_previous(bytes, at3) {
            Some(r) => r,
            None => {
                return None;
            },
        };
        let (expires_at, at5) = match read_u64(bytes, at4) {
            Some(r) => r,
            None => {
                return None;
            },
        };
        let (claims, at6) = match PcaClaims::read(bytes, at5) {
            Some(r) => r,
            None => {
                return None;
            },
        };
        let (kid, at7) = match read_text(bytes, at6) {
            Some(r) => r,
            None => {
                return None;
            },
        };
        let (signature, at8) = match read_bytes(bytes, at7) {
            Some(r) => r,
            None => {
                return None;
            },
        };
        if at8 != bytes.len() {
            return None;
        }
        Some(Pca { subject, issuer, sequence, previous, expires_at, claims, kid, signature })
    }
}

/// The SHA-256 digest of `data`, as the `sha2` crate computes it.
pub uninterp spec fn sha256_digest(data: Seq<u8>) -> Seq<u8>;

/// `Sha256::digest`: the digest of `data`, 32 bytes long.
#[verifier::external_body]
fn sha256(data: &[u8]) -> (digest: Vec<u8>)
    ensures
        digest@ == sha256_digest(data@),
        digest@.len() == HASH_LEN,
{
    Sha256::digest(data).to_vec()
}

/// The content hash of an encoded PCA.
pub fn content_hash(encoded: &[u8]) -> (hash: Vec<u8>)
    ensures
        hash@ == sha256_digest(encoded@),
        hash@.len() == HASH_LEN,
{
    sha256(encoded)
}

/// The end of validity of a PCA minted at `now` to live `ttl` seconds; it
/// stops at the largest time that can be written.
pub open spec fn expiry(now: u64, ttl: u64) -> u64 {
    if now + ttl > u64::MAX {
        u64::MAX
    } else {
        (now + ttl) as u64
    }
}

/// Adds `ttl` to `now`, stopping at the largest value.
pub fn expiry_at(now: u64, ttl: u64) -> (at: u64)
    ensures
        at == expiry(now, ttl),
{
    if ttl > u64::MAX - now {
        u64::MAX
    } else {
        now + ttl
    }
}

/// `body` with the signature that the key `secret` makes over it.
pub open spec fn sealed(body: PcaView, secret: Seq<u8>) -> PcaView {
    PcaView { signature: ed25519_signature(secret, signing_bytes(body)), ..body }
}

impl Pca {
    /// Signs `self` with `key`, replacing its signature. Gives nothing
    /// where a field is too long to be written down.
    pub fn seal(self, key: &KeyPair) -> (out: Option<Pca>)
        ensures
            match out {
                Some(p) => signable(self@) && p@ == sealed(self@, key@.secret) && encodable(p@) && (
                key.wf() ==> ed25519_accepts(key@.public, signing_bytes(p@), p@.signature)),
                None => !signable(self@),
            },
    {
        let input = match self.signing_input() {
            Some(input) => input,
            None => {
                return None;
            },
        };
        let signature = key.sign(input.as_slice());
        let mut out = self;
        out.signature = signature;
        Some(out)
    }
}

/// The root PCA that `creds` mints at `now` for `subject` with `claims`.
pub open spec fn minted_root(
    creds: CredentialsView,
    subject: Seq<char>,
    claims: ClaimsView,
    now: u64,
    ttl: u64,
) -> PcaView {
    sealed(
        PcaView {
            subject,
            issuer: creds.did,
            sequence: 0,
            previous: PredecessorView::Root,
            expires_at: expiry(now, ttl),
            claims,
            kid: creds.cat_key.kid,
            signature: Seq::empty(),
        },
        creds.cat_key.secret,
    )
}

/// Mints the root PCA of a new chain for `subject` with `claims`: sequence
/// 0, no predecessor, issued by the identity of `creds` and signed with
/// its CAT key.
///
/// Fails with `Invalid` where a text is too long to be written down.
pub fn mint_root(
    creds: &TrustPlaneCredentials,
    subject: String,
    claims: PcaClaims,
    now: u64,
    ttl: u64,
) -> (out: Result<Pca, Error>)
    ensures
        match out {
            Ok(p) => p@ == minted_root(creds@, subject@, claims@, now, ttl) && encodable(p@)
                && p@.sequence == 0 && p@.previous is Root && (creds.cat_key.wf()
                ==> ed25519_accepts(creds@.cat_key.public, signing_bytes(p@), p@.signature)),
            Err(e) => !signable(minted_root(creds@, subject@, claims@, now, ttl)) && e.carries(
                ErrorKind::Invalid,
                "PCA is too large to encode"@,
            ),
        },
{
    let body = Pca {
        subject,
        issuer: creds.did.clone(),
        sequence: 0,
        previous: Predecessor::Root,
        expires_at: expiry_at(now, ttl),
        claims,
        kid: String::from_str(creds.cat_key.kid()),
        signature: Vec::new(),
    };
    match body.seal(&creds.cat_key) {
        Some(p) => Ok(p),
        None => Err(Error::Invalid(String::from_str("PCA is too large to encode"))),
    }
}

/// A root is minted at sequence 0 with no predecessor.
pub proof fn law_root_is_first(
    creds: CredentialsView,
    subject: Seq<char>,
    claims: ClaimsView,
    now: u64,
    ttl: u64,
)
    ensures
        minted_root(creds, subject, claims, now, ttl).sequence == 0,
        minted_root(creds, subject, claims, now, ttl).previous is Root,
        well_placed(minted_root(creds, subject, claims, now, ttl)),
{
}

} // verus!
