//! Tokens in the compact form: three base64url segments, header, payload
//! and signature, with a dot between them.
//!
//! A token is taken apart here, its signature is checked under a key that
//! the caller has fetched, and its payload is read for the claims that a
//! bridge asks for. Tokens signed with EdDSA over Ed25519 are supported.

use vstd::prelude::*;
use vstd::slice::*;
use vstd::string::*;
use vstd::utf8::{decode_utf8, valid_utf8};
use crate::bridge::{ClaimMappingView, JwtBridgeConfig, MappingConfig, MappingView};
use crate::credentials::keys::{ed25519_accepts, verify, Jwk, JwkView};
use crate::encoding::{base64url_bytes, base64url_decode};
use crate::exchange::{
    organization_claim_of, subject_claim_of, TokenClaims, TokenClaimsView, TokenVerification,
    TokenVerificationView,
};
use crate::pca::{Claim, ClaimView};
use crate::text::str_eq;
use crate::wire::text_from_utf8;

verus! {

/// The byte that stands between the segments of a token.
pub const DOT: u8 = 0x2e;

/// The text of the member `name` of the JSON object that `json` holds, as
/// `serde_json` reads it; nothing where `json` is no JSON, holds no object,
/// or the object has no member `name` that is a text.
pub uninterp spec fn json_text_member(json: Seq<u8>, name: Seq<char>) -> Option<Seq<char>>;

/// The length of the member `name` of the JSON object that `json` holds,
/// as `serde_json` reads it; nothing where there is no such member that is
/// a list.
pub uninterp spec fn json_list_len_of(json: Seq<u8>, name: Seq<char>) -> Option<nat>;

/// The text at `index` in the member `name` of the JSON object that `json`
/// holds, as `serde_json` reads it; nothing where there is no such member
/// that is a list, or the list holds no text there.
pub uninterp spec fn json_list_text_of(json: Seq<u8>, name: Seq<char>, index: nat) -> Option<
    Seq<char>,
>;

/// `serde_json::from_slice` to a `Value`, then `Value::get` with the name;
/// the member counts where it is a `Value::String`.
#[verifier::external_body]
fn json_text(json: &[u8], name: &str) -> (out: Option<String>)
    ensures
        match out {
            Some(text) => json_text_member(json@, name@) == Some(text@),
            None => json_text_member(json@, name@) is None,
        },
{
    match serde_json::from_slice::<serde_json::Value>(json) {
        Ok(value) => match value.get(name) {
            Some(serde_json::Value::String(text)) => Some(text.clone()),
            _ => None,
        },
        Err(_) => None,
    }
}

/// `serde_json::from_slice` to a `Value`, then `Value::get` with the name;
/// the member counts where it is a `Value::Array`, and its length is given.
#[verifier::external_body]
fn json_list_len(json: &[u8], name: &str) -> (out: Option<usize>)
    ensures
        match out {
            Some(n) => json_list_len_of(json@, name@) == Some(n as nat),
            None => json_list_len_of(json@, name@) is None,
        },
{
    match serde_json::from_slice::<serde_json::Value>(json) {
        Ok(value) => match value.get(name) {
            Some(serde_json::Value::Array(list)) => Some(list.len()),
            _ => None,
        },
        Err(_) => None,
    }
}

/// `serde_json::from_slice` to a `Value`, then `Value::get` with the name;
/// where the member is a `Value::Array`, its element at `index` counts
/// where it is a `Value::String`.
#[verifier::external_body]
fn json_list_text(json: &[u8], name: &str, index: usize) -> (out: Option<String>)
    ensures
        match out {
            Some(text) => json_list_text_of(json@, name@, index as nat) == Some(text@),
            None => json_list_text_of(json@, name@, index as nat) is None,
        },
{
    match serde_json::from_slice::<serde_json::Value>(json) {
        Ok(value) => match value.get(name) {
            Some(serde_json::Value::Array(list)) => match list.get(index) {
                Some(serde_json::Value::String(text)) => Some(text.clone()),
                _ => None,
            },
            _ => None,
        },
        Err(_) => None,
    }
}

/// A token taken apart.
#[derive(Debug)]
pub struct ParsedToken {
    /// The key that the header names, where it names one
    pub kid: Option<String>,
    /// The payload, as JSON
    pub payload: Vec<u8>,
    /// The signature
    pub signature: Vec<u8>,
    /// What the signature is made over: the token up to its second dot
    pub signed: Vec<u8>,
}

/// The mathematical form of a token taken apart.
pub ghost struct ParsedTokenView {
    pub kid: Option<Seq<char>>,
    pub payload: Seq<u8>,
    pub signature: Seq<u8>,
    pub signed: Seq<u8>,
}

impl View for ParsedToken {
    type V = ParsedTokenView;

    open spec fn view(&self) -> ParsedTokenView {
        ParsedTokenView {
            kid: self.kid.deep_view(),
            payload: self.payload@,
            signature: self.signature@,
            signed: self.signed@,
        }
    }
}

/// Where the first dot of `b` at or after `from` stands.
pub open spec fn dot_at(b: Seq<u8>, from: int) -> Option<int>
    decreases b.len() - from,
{
    if from < 0 || from >= b.len() {
        None
    } else if b[from] == DOT {
        Some(from)
    } else {
        dot_at(b, from + 1)
    }
}

/// The bytes that the segment `segment` stands for: it is a text, and the
/// text is base64url.
pub open spec fn segment_bytes(segment: Seq<u8>) -> Option<Seq<u8>> {
    if valid_utf8(segment) {
        base64url_bytes(decode_utf8(segment))
    } else {
        None
    }
}

/// Why a token is not taken apart; nothing where it is.
///
/// A token has exactly two dots, each of its three segments is base64url,
/// and its header is a JSON object that names the algorithm "EdDSA".
pub open spec fn parse_fault(b: Seq<u8>) -> Option<TokenVerificationView> {
    match dot_at(b, 0) {
        None => Some(TokenVerificationView::Malformed),
        Some(i) => match dot_at(b, i + 1) {
            None => Some(TokenVerificationView::Malformed),
            Some(j) => if dot_at(b, j + 1) is Some {
                Some(TokenVerificationView::Malformed)
            } else if segment_bytes(b.subrange(0, i)) is None || segment_bytes(
                b.subrange(i + 1, j),
            ) is None || segment_bytes(b.subrange(j + 1, b.len() as int)) is None {
                Some(TokenVerificationView::Malformed)
            } else if json_text_member(segment_bytes(b.subrange(0, i))->Some_0, "alg"@) != Some(
                "EdDSA"@,
            ) {
                Some(TokenVerificationView::UnsupportedAlgorithm)
            } else {
                None
            },
        },
    }
}

/// The parts of a token that can be taken apart.
pub open spec fn parsed(b: Seq<u8>) -> ParsedTokenView {
    let i = dot_at(b, 0)->Some_0;
    let j = dot_at(b, i + 1)->Some_0;
    ParsedTokenView {
        kid: json_text_member(segment_bytes(b.subrange(0, i))->Some_0, "kid"@),
        payload: segment_bytes(b.subrange(i + 1, j))->Some_0,
        signature: segment_bytes(b.subrange(j + 1, b.len() as int))->Some_0,
        signed: b.subrange(0, j),
    }
}

fn find_dot(b: &[u8], from: usize) -> (at: Option<usize>)
    requires
        from <= b@.len(),
    ensures
        match at {
            Some(i) => from <= i < b@.len() && dot_at(b@, from as int) == Some(i as int),
            None => dot_at(b@, from as int) is None,
        },
{
    let mut i: usize = from;
    while i < b.len()
        invariant
            from <= i <= b@.len(),
            dot_at(b@, from as int) == dot_at(b@, i as int),
        decreases b@.len() - i,
    {
        if b[i] == DOT {
            return Some(i);
        }
        i += 1;
    }
    None
}

fn segment(b: &[u8], from: usize, to: usize) -> (out: Option<Vec<u8>>)
    requires
        from <= to <= b@.len(),
    ensures
        match out {
            Some(bytes) => segment_bytes(b@.subrange(from as int, to as int)) == Some(bytes@),
            None => segment_bytes(b@.subrange(from as int, to as int)) is None,
        },
{
    match text_from_utf8(slice_to_vec(slice_subrange(b, from, to))) {
        Some(text) => base64url_decode(text.as_str()),
        None => None,
    }
}

/// Takes a token apart. A token that cannot be taken apart is answered
/// with the finding that the exchange goes on with: `Malformed`, or
/// `UnsupportedAlgorithm` for a well-formed token of another algorithm.
pub fn parse_token(token: &str) -> (out: Result<ParsedToken, TokenVerification>)
    ensures
        match out {
            Ok(t) => parse_fault(token.spec_bytes()) is None && t@ == parsed(token.spec_bytes()),
            Err(v) => parse_fault(token.spec_bytes()) == Some(v@),
        },
{
    let b = token.as_bytes();
    let end = b.len();
    let i = match find_dot(b, 0) {
        Some(i) => i,
        None => {
            return Err(TokenVerification::Malformed);
        },
    };
    let j = match find_dot(b, i + 1) {
        Some(j) => j,
        None => {
            return Err(TokenVerification::Malformed);
        },
    };
    if find_dot(b, j + 1).is_some() {
        return Err(TokenVerification::Malformed);
    }
    let header = match segment(b, 0, i) {
        Some(header) => header,
        None => {
            return Err(TokenVerification::Malformed);
        },
    };
    let payload = match segment(b, i + 1, j) {
        Some(payload) => payload,
        None => {
            return Err(TokenVerification::Malformed);
        },
    };
    let signature = match segment(b, j + 1, end) {
        Some(signature) => signature,
        None => {
            return Err(TokenVerification::Malformed);
        },
    };
    let supported = match json_text(header.as_slice(), "alg") {
        Some(alg) => str_eq(alg.as_str(), "EdDSA"),
        None => false,
    };
    if !supported {
        return Err(TokenVerification::UnsupportedAlgorithm);
    }
    Ok(
        ParsedToken {
            kid: json_text(header.as_slice(), "kid"),
            payload,
            signature,
            signed: slice_to_vec(slice_subrange(b, 0, j)),
        },
    )
}

/// What is done next with the token of an exchange.
#[derive(Debug)]
pub enum KeyStep {
    /// Nothing is fetched: the token cannot be taken apart, and this is
    /// what is found of it.
    Found(TokenVerification),
    /// Fetch the keys that the issuer publishes behind `wellknown_url`,
    /// then check the token against them with `verify_with_keys`.
    Fetch { wellknown_url: String, token: ParsedToken },
}

/// Decides whether keys are fetched for a token. They are fetched only
/// for a token that can be taken apart, from the key discovery endpoint
/// of the bridge; of any other token the finding is given at once.
pub fn begin_verification(config: &JwtBridgeConfig, token: &str) -> (step: KeyStep)
    ensures
        match step {
            KeyStep::Found(v) => parse_fault(token.spec_bytes()) == Some(v@),
            KeyStep::Fetch { wellknown_url, token: taken } => parse_fault(token.spec_bytes())
                is None && wellknown_url@ == config@.wellknown_url && taken@ == parsed(
                token.spec_bytes(),
            ),
        },
{
    match parse_token(token) {
        Ok(taken) => KeyStep::Fetch { wellknown_url: config.wellknown_url.clone(), token: taken },
        Err(finding) => KeyStep::Found(finding),
    }
}

/// The texts among the first `n` elements of the list `name` of `json`.
pub open spec fn list_texts(json: Seq<u8>, name: Seq<char>, n: nat) -> Seq<Seq<char>>
    decreases n,
{
    if n == 0 {
        Seq::empty()
    } else {
        let head = list_texts(json, name, (n - 1) as nat);
        match json_list_text_of(json, name, (n - 1) as nat) {
            Some(text) => head.push(text),
            None => head,
        }
    }
}

/// The audiences that a payload names: the one text of its member "aud",
/// or the texts in it where it is a list; none where it has no such member.
pub open spec fn audiences_of(payload: Seq<u8>) -> Seq<Seq<char>> {
    match json_text_member(payload, "aud"@) {
        Some(audience) => seq![audience],
        None => match json_list_len_of(payload, "aud"@) {
            Some(n) => list_texts(payload, "aud"@, n),
            None => Seq::empty(),
        },
    }
}

/// The claims named `names` that a payload holds as texts, in the order of
/// `names`.
pub open spec fn gathered(payload: Seq<u8>, names: Seq<Seq<char>>) -> Seq<ClaimView>
    decreases names.len(),
{
    if names.len() == 0 {
        Seq::empty()
    } else {
        let head = gathered(payload, names.drop_last());
        match json_text_member(payload, names.last()) {
            Some(value) => head.push(ClaimView { name: names.last(), value }),
            None => head,
        }
    }
}

/// The names of the claims that a bridge with the mapping `m` asks for:
/// the subject claim, the organization claim, "scope", and the claim of
/// each custom mapping.
pub open spec fn wanted(m: MappingView) -> Seq<Seq<char>> {
    seq![subject_claim_of(m), organization_claim_of(m), "scope"@] + m.custom.map_values(
        |c: ClaimMappingView| c.claim,
    )
}

/// What a payload says to a bridge with the mapping `m`; nothing where it
/// names no issuer.
pub open spec fn claims_of(payload: Seq<u8>, m: MappingView) -> Option<TokenClaimsView> {
    match json_text_member(payload, "iss"@) {
        Some(issuer) => Some(
            TokenClaimsView {
                issuer,
                audiences: audiences_of(payload),
                claims: gathered(payload, wanted(m)),
            },
        ),
        None => None,
    }
}

/// What is found of a token under the key `key`: its signature is checked
/// first, then its payload is read.
pub open spec fn verification_of(
    token: ParsedTokenView,
    key: Option<Seq<u8>>,
    m: MappingView,
) -> TokenVerificationView {
    match key {
        None => TokenVerificationView::KeysUnavailable,
        Some(public) => if !ed25519_accepts(public, token.signed, token.signature) {
            TokenVerificationView::BadSignature
        } else {
            match claims_of(token.payload, m) {
                Some(claims) => TokenVerificationView::Verified(claims),
                None => TokenVerificationView::Malformed,
            }
        },
    }
}

fn audiences(payload: &[u8]) -> (out: Vec<String>)
    ensures
        out.deep_view() == audiences_of(payload@),
{
    let mut out: Vec<String> = Vec::new();
    match json_text(payload, "aud") {
        Some(audience) => {
            out.push(audience);
            assert(out.deep_view() =~= seq![audience@]);
        },
        None => match json_list_len(payload, "aud") {
            Some(n) => {
                let mut i: usize = 0;
                assert(out.deep_view() =~= list_texts(payload@, "aud"@, 0));
                while i < n
                    invariant
                        i <= n,
                        out.deep_view() == list_texts(payload@, "aud"@, i as nat),
                    decreases n - i,
                {
                    let ghost before = out.deep_view();
                    match json_list_text(payload, "aud", i) {
                        Some(text) => {
                            out.push(text);
                            assert(out.deep_view() =~= before.push(text@));
                        },
                        None => {},
                    }
                    i += 1;
                }
            },
            None => {
                assert(out.deep_view() =~= Seq::<Seq<char>>::empty());
            },
        },
    }
    out
}

fn wanted_names(mapping: &MappingConfig) -> (out: Vec<String>)
    ensures
        out.deep_view() == wanted(mapping@),
{
    let mut out: Vec<String> = Vec::new();
    out.push(String::from_str(mapping.subject_claim_name()));
    out.push(String::from_str(mapping.organization_claim_name()));
    out.push(String::from_str("scope"));
    let ghost head = out.deep_view();
    let ghost custom = mapping.custom.deep_view();
    assert(head =~= seq![
        subject_claim_of(mapping@),
        organization_claim_of(mapping@),
        "scope"@,
    ]);
    let mut i: usize = 0;
    while i < mapping.custom.len()
        invariant
            i <= mapping.custom.len(),
            custom == mapping.custom.deep_view(),
            out.deep_view() == head + custom.take(i as int).map_values(
                |c: ClaimMappingView| c.claim,
            ),
        decreases mapping.custom.len() - i,
    {
        let ghost before = out.deep_view();
        let name = mapping.custom[i].claim.clone();
        out.push(name);
        assert(out.deep_view() =~= before.push(custom[i as int].claim));
        assert(custom.take(i + 1).map_values(|c: ClaimMappingView| c.claim) =~= custom.take(
            i as int,
        ).map_values(|c: ClaimMappingView| c.claim).push(custom[i as int].claim));
        i += 1;
    }
    assert(custom.take(i as int) =~= custom);
    out
}

fn gather(payload: &[u8], names: &Vec<String>) -> (out: Vec<Claim>)
    ensures
        out.deep_view() == gathered(payload@, names.deep_view()),
{
    let ghost all = names.deep_view();
    let mut out: Vec<Claim> = Vec::new();
    let mut i: usize = 0;
    assert(out.deep_view() =~= gathered(payload@, all.take(0)));
    while i < names.len()
        invariant
            i <= names.len(),
            all == names.deep_view(),
            out.deep_view() == gathered(payload@, all.take(i as int)),
        decreases names.len() - i,
    {
        let ghost before = out.deep_view();
        let ghost upto = all.take(i + 1);
        assert(upto.last() == all[i as int]);
        assert(upto.drop_last() =~= all.take(i as int));
        match json_text(payload, names[i].as_str()) {
            Some(value) => {
                let claim = Claim { name: names[i].clone(), value };
                out.push(claim);
                assert(out.deep_view() =~= before.push(claim@));
            },
            None => {},
        }
        i += 1;
    }
    assert(all.take(i as int) =~= all);
    out
}

/// The public key that a JWK holds, where it is an Ed25519 key.
pub open spec fn key_of(jwk: JwkView) -> Option<Seq<u8>> {
    if jwk.kty == "OKP"@ && jwk.crv == "Ed25519"@ {
        base64url_bytes(jwk.x)
    } else {
        None
    }
}

/// Whether a key is one that a token naming `kid` may be verified with: a
/// token that names a key is verified with that key alone, one that names
/// none with any key.
pub open spec fn key_matches(jwk: JwkView, kid: Option<Seq<char>>) -> bool {
    key_of(jwk) is Some && (kid is Some ==> jwk.kid == kid)
}

/// The key among the issuer's keys that a token naming `kid` is verified
/// with: the first that matches.
pub open spec fn selected(keys: Seq<JwkView>, kid: Option<Seq<char>>) -> Option<Seq<u8>>
    decreases keys.len(),
{
    if keys.len() == 0 {
        None
    } else if key_matches(keys[0], kid) {
        key_of(keys[0])
    } else {
        selected(keys.drop_first(), kid)
    }
}

/// Selects the key that a token is verified with from the keys that the
/// issuer publishes.
pub fn select_key(keys: &Vec<Jwk>, kid: &Option<String>) -> (out: Option<Vec<u8>>)
    ensures
        match out {
            Some(key) => selected(keys.deep_view(), kid.deep_view()) == Some(key@),
            None => selected(keys.deep_view(), kid.deep_view()) is None,
        },
{
    let ghost all = keys.deep_view();
    let mut i: usize = 0;
    assert(all.skip(0) =~= all);
    while i < keys.len()
        invariant
            i <= keys.len(),
            all == keys.deep_view(),
            selected(all, kid.deep_view()) == selected(all.skip(i as int), kid.deep_view()),
        decreases keys.len() - i,
    {
        let ghost rest = all.skip(i as int);
        assert(rest[0] == all[i as int]);
        assert(rest.drop_first() =~= all.skip(i + 1));
        let jwk = &keys[i];
        let named = match kid {
            Some(kid) => match &jwk.kid {
                Some(own) => str_eq(own.as_str(), kid.as_str()),
                None => false,
            },
            None => true,
        };
        if named && str_eq(jwk.kty.as_str(), "OKP") && str_eq(jwk.crv.as_str(), "Ed25519") {
            match base64url_decode(jwk.x.as_str()) {
                Some(key) => {
                    return Some(key);
                },
                None => {},
            }
        }
        i += 1;
    }
    None
}

/// Checks a token under the key that was fetched for it, and reads what
/// its payload says to a bridge with the mapping `mapping`.
///
/// Without a key nothing is verified: the finding is `KeysUnavailable`. A
/// signature that the key does not accept over the token's first two
/// segments gives `BadSignature`, and a payload that names no issuer
/// `Malformed`.
pub fn verify_token(token: &ParsedToken, key: Option<&[u8]>, mapping: &MappingConfig) -> (out:
    TokenVerification)
    ensures
        out@ == verification_of(
            token@,
            match key {
                Some(k) => Some(k@),
                None => None,
            },
            mapping@,
        ),
{
    let public = match key {
        Some(public) => public,
        None => {
            return TokenVerification::KeysUnavailable;
        },
    };
    if !verify(public, token.signed.as_slice(), token.signature.as_slice()) {
        return TokenVerification::BadSignature;
    }
    let issuer = match json_text(token.payload.as_slice(), "iss") {
        Some(issuer) => issuer,
        None => {
            return TokenVerification::Malformed;
        },
    };
    let names = wanted_names(mapping);
    TokenVerification::Verified(
        TokenClaims {
            issuer,
            audiences: audiences(token.payload.as_slice()),
            claims: gather(token.payload.as_slice(), &names),
        },
    )
}

/// What is found of a token given the keys that its issuer publishes;
/// `keys` is nothing where they could not be had.
pub open spec fn verification_with(
    token: ParsedTokenView,
    keys: Option<Seq<JwkView>>,
    m: MappingView,
) -> TokenVerificationView {
    verification_of(
        token,
        match keys {
            Some(keys) => selected(keys, token.kid),
            None => None,
        },
        m,
    )
}

/// Checks a token against the keys that its issuer publishes: the key is
/// selected by the identifier that the token names, then the token is
/// checked under it as `verify_token` does. Where the keys could not be
/// had, or none of them is the token's, the finding is `KeysUnavailable`.
pub fn verify_with_keys(token: &ParsedToken, keys: Option<&Vec<Jwk>>, mapping: &MappingConfig) -> (out:
    TokenVerification)
    ensures
        out@ == verification_with(
            token@,
            match keys {
                Some(keys) => Some(keys.deep_view()),
                None => None,
            },
            mapping@,
        ),
{
    let key = match keys {
        Some(keys) => select_key(keys, &token.kid),
        None => None,
    };
    match key {
        Some(key) => verify_token(token, Some(key.as_slice()), mapping),
        None => verify_token(token, None, mapping),
    }
}

} // verus!
