//! The bridge exchange engine: from an external credential to the root
//! PCA of a new chain.
//!
//! Fetching the keys that a token's issuer publishes is done outside this
//! library. The engine decides when the keys are asked for, and what
//! follows once the token was checked against them.

use vstd::prelude::*;
use vstd::slice::slice_to_vec;
use vstd::string::*;
use crate::bridge::{
    BridgeConfigView, BridgeRegistry, BridgeTypeConfig, BridgeTypeConfigView, ClaimMapping,
    ClaimMappingView, JwtBridgeConfig, JwtBridgeView, MappingConfig, MappingView,
};
use crate::credentials::TrustPlaneCredentials;
use crate::error::{public_text, Error, ErrorKind};
use crate::credentials::keys::ed25519_accepts;
use crate::pca::{
    decode_spec, encode_spec, law_decode_encode, minted_root, mint_root, signable,
    signing_bytes, Claim, ClaimView, ClaimsView, PcaClaims,
};
use crate::text::{join2, str_eq};
use crate::wire::text_from_utf8;

verus! {

/// Request to exchange an external credential for a root PCA.
#[derive(Debug)]
pub struct ExchangeRequest {
    pub bridge_id: String,
    pub credential: Vec<u8>,
}

/// Answer to an exchange: the encoded PCA, or an error text and no PCA.
#[derive(Debug)]
pub struct ExchangeResponse {
    pub pca: Vec<u8>,
    pub error: String,
}

/// What a verified token says.
#[derive(Debug)]
pub struct TokenClaims {
    pub issuer: String,
    pub audiences: Vec<String>,
    /// The token's claims that are texts, by name
    pub claims: Vec<Claim>,
}

/// What was found of a token.
#[derive(Debug)]
pub enum TokenVerification {
    /// The token is well-formed and its signature verifies.
    Verified(TokenClaims),
    /// The token could not be parsed.
    Malformed,
    /// The token is signed with an algorithm that is not supported.
    UnsupportedAlgorithm,
    /// The issuer's keys could not be had.
    KeysUnavailable,
    /// The signature does not verify under the issuer's keys.
    BadSignature,
}

/// What the engine does next with an exchange request.
#[derive(Debug)]
pub enum ExchangeStep {
    /// Answer the caller: the request was turned down, for a reason of
    /// the kind given.
    Respond(ErrorKind, ExchangeResponse),
    /// Fetch the keys behind the bridge's key discovery endpoint and check
    /// the token against them, then go on with `complete_exchange`.
    Verify { config: JwtBridgeConfig, token: String },
}

/// The mathematical form of a token's claims.
pub ghost struct TokenClaimsView {
    pub issuer: Seq<char>,
    pub audiences: Seq<Seq<char>>,
    pub claims: Seq<ClaimView>,
}

/// The mathematical form of what was found of a token.
pub ghost enum TokenVerificationView {
    Verified(TokenClaimsView),
    Malformed,
    UnsupportedAlgorithm,
    KeysUnavailable,
    BadSignature,
}

impl View for TokenClaims {
    type V = TokenClaimsView;

    open spec fn view(&self) -> TokenClaimsView {
        TokenClaimsView {
            issuer: self.issuer@,
            audiences: self.audiences.deep_view(),
            claims: self.claims.deep_view(),
        }
    }
}

impl View for TokenVerification {
    type V = TokenVerificationView;

    open spec fn view(&self) -> TokenVerificationView {
        match self {
            TokenVerification::Verified(t) => TokenVerificationView::Verified(t@),
            TokenVerification::Malformed => TokenVerificationView::Malformed,
            TokenVerification::UnsupportedAlgorithm => TokenVerificationView::UnsupportedAlgorithm,
            TokenVerification::KeysUnavailable => TokenVerificationView::KeysUnavailable,
            TokenVerification::BadSignature => TokenVerificationView::BadSignature,
        }
    }
}

/// The value of the first claim named `name`.
pub open spec fn find_claim(claims: Seq<ClaimView>, name: Seq<char>) -> Option<Seq<char>>
    decreases claims.len(),
{
    if claims.len() == 0 {
        None
    } else if claims[0].name == name {
        Some(claims[0].value)
    } else {
        find_claim(claims.drop_first(), name)
    }
}

/// The custom claims of a PCA: for each mapping, in order, whose claim
/// the token holds, the claim's value under the mapping's field.
pub open spec fn mapped_custom(mapping: Seq<ClaimMappingView>, claims: Seq<ClaimView>) -> Seq<
    ClaimView,
>
    decreases mapping.len(),
{
    if mapping.len() == 0 {
        Seq::empty()
    } else {
        let head = mapped_custom(mapping.drop_last(), claims);
        match find_claim(claims, mapping.last().claim) {
            Some(value) => head.push(ClaimView { name: mapping.last().field, value }),
            None => head,
        }
    }
}

/// Some audience of the token is one that the bridge allows.
pub open spec fn audiences_meet(allowed: Seq<Seq<char>>, presented: Seq<Seq<char>>) -> bool {
    exists|j: int| 0 <= j < presented.len() && allowed.contains(#[trigger] presented[j])
}

/// The claim that the subject is taken from: "sub" unless the mapping
/// names another.
pub open spec fn subject_claim_of(m: MappingView) -> Seq<char> {
    if m.subject_claim.len() == 0 {
        "sub"@
    } else {
        m.subject_claim
    }
}

/// The claim that the organization is taken from: "org" unless the
/// mapping names another.
pub open spec fn organization_claim_of(m: MappingView) -> Seq<char> {
    if m.organization_claim.len() == 0 {
        "org"@
    } else {
        m.organization_claim
    }
}

/// Why a token is not exchanged under the bridge `config`; nothing where
/// it is. The checks are made in this order: what was found of the token, the
/// issuer, the audiences, the subject claim, the organization claim.
pub open spec fn exchange_fault(config: JwtBridgeView, v: TokenVerificationView) -> Option<
    (ErrorKind, Seq<char>),
> {
    match v {
        TokenVerificationView::Malformed => Some((ErrorKind::Invalid, "token is malformed"@)),
        TokenVerificationView::UnsupportedAlgorithm => Some(
            (ErrorKind::Invalid, "token algorithm is not supported"@),
        ),
        TokenVerificationView::KeysUnavailable => Some(
            (ErrorKind::NotFound, "token verification keys"@),
        ),
        TokenVerificationView::BadSignature => Some(
            (ErrorKind::Crypto, "token signature does not verify"@),
        ),
        TokenVerificationView::Verified(t) => if t.issuer != config.issuer {
            Some((ErrorKind::Invalid, "token issuer is not accepted"@))
        } else if !audiences_meet(config.audiences, t.audiences) {
            Some((ErrorKind::Invalid, "token audience is not accepted"@))
        } else if find_claim(t.claims, subject_claim_of(config.mapping)) is None {
            Some((ErrorKind::Invalid, "token lacks the subject claim"@))
        } else if find_claim(t.claims, organization_claim_of(config.mapping)) is None {
            Some((ErrorKind::Invalid, "token lacks the organization claim"@))
        } else {
            None
        },
    }
}

/// The subject that a token is exchanged for.
pub open spec fn mapped_subject(config: JwtBridgeView, t: TokenClaimsView) -> Seq<char> {
    find_claim(t.claims, subject_claim_of(config.mapping))->Some_0
}

/// The claim set that a token is exchanged for: the organization, the
/// scope where the token has a "scope" claim, and the custom claims.
pub open spec fn mapped_claims(config: JwtBridgeView, t: TokenClaimsView) -> ClaimsView {
    ClaimsView {
        organization: find_claim(t.claims, organization_claim_of(config.mapping))->Some_0,
        scope: match find_claim(t.claims, "scope"@) {
            Some(scope) => scope,
            None => Seq::empty(),
        },
        custom: mapped_custom(config.mapping.custom, t.claims),
    }
}

fn lookup_claim(claims: &Vec<Claim>, name: &str) -> (out: Option<String>)
    ensures
        out.deep_view() == find_claim(claims.deep_view(), name@),
{
    let ghost all = claims.deep_view();
    let mut i: usize = 0;
    assert(all.skip(0) =~= all);
    while i < claims.len()
        invariant
            i <= claims.len(),
            all == claims.deep_view(),
            find_claim(all, name@) == find_claim(all.skip(i as int), name@),
        decreases claims.len() - i,
    {
        let ghost rest = all.skip(i as int);
        assert(rest[0] == all[i as int]);
        assert(rest.drop_first() =~= all.skip(i + 1));
        if str_eq(claims[i].name.as_str(), name) {
            return Some(claims[i].value.clone());
        }
        i += 1;
    }
    None
}

fn holds_text(list: &Vec<String>, text: &str) -> (found: bool)
    ensures
        found == list.deep_view().contains(text@),
{
    let mut i: usize = 0;
    while i < list.len()
        invariant
            i <= list.len(),
            forall|j: int| 0 <= j < i ==> list.deep_view()[j] != text@,
        decreases list.len() - i,
    {
        if str_eq(list[i].as_str(), text) {
            assert(list.deep_view()[i as int] == text@);
            return true;
        }
        i += 1;
    }
    false
}

fn audiences_accepted(allowed: &Vec<String>, presented: &Vec<String>) -> (ok: bool)
    ensures
        ok == audiences_meet(allowed.deep_view(), presented.deep_view()),
{
    let mut j: usize = 0;
    while j < presented.len()
        invariant
            j <= presented.len(),
            forall|k: int|
                0 <= k < j ==> !allowed.deep_view().contains(#[trigger] presented.deep_view()[k]),
        decreases presented.len() - j,
    {
        if holds_text(allowed, presented[j].as_str()) {
            assert(allowed.deep_view().contains(presented.deep_view()[j as int]));
            return true;
        }
        j += 1;
    }
    false
}

fn map_custom(mapping: &Vec<ClaimMapping>, claims: &Vec<Claim>) -> (out: Vec<Claim>)
    ensures
        out.deep_view() == mapped_custom(mapping.deep_view(), claims.deep_view()),
{
    let ghost all = mapping.deep_view();
    let mut out: Vec<Claim> = Vec::new();
    let mut i: usize = 0;
    assert(out.deep_view() =~= mapped_custom(all.take(0), claims.deep_view()));
    while i < mapping.len()
        invariant
            i <= mapping.len(),
            all == mapping.deep_view(),
            out.deep_view() == mapped_custom(all.take(i as int), claims.deep_view()),
        decreases mapping.len() - i,
    {
        let ghost before = out.deep_view();
        let ghost upto = all.take(i + 1);
        assert(upto.last() == all[i as int]);
        assert(upto.drop_last() =~= all.take(i as int));
        match lookup_claim(claims, mapping[i].claim.as_str()) {
            Some(value) => {
                let claim = Claim { name: mapping[i].field.clone(), value };
                out.push(claim);
                assert(out.deep_view() =~= before.push(claim@));
            },
            None => {},
        }
        i += 1;
    }
    assert(all.take(i as int) =~= all);
    out
}

impl MappingConfig {
    /// The claim that the subject is taken from.
    pub fn subject_claim_name(&self) -> (name: &str)
        ensures
            name@ == subject_claim_of(self@),
    {
        if self.subject_claim.as_str().is_empty() {
            "sub"
        } else {
            self.subject_claim.as_str()
        }
    }

    /// The claim that the organization is taken from.
    pub fn organization_claim_name(&self) -> (name: &str)
        ensures
            name@ == organization_claim_of(self@),
    {
        if self.organization_claim.as_str().is_empty() {
            "org"
        } else {
            self.organization_claim.as_str()
        }
    }
}

impl ExchangeResponse {
    /// The answer that turns a request down with `error`.
    pub fn failure(error: String) -> (out: Self)
        ensures
            out.pca@.len() == 0,
            out.error@ == error@,
    {
        ExchangeResponse { pca: Vec::new(), error }
    }

    /// The answer that stands for the outcome of an exchange: the PCA and
    /// no error, or no PCA and what the caller is told of the error.
    pub fn from_outcome(outcome: Result<Vec<u8>, Error>) -> (out: Self)
        ensures
            match outcome {
                Ok(pca) => out.pca@ == pca@ && out.error@.len() == 0,
                Err(e) => out.pca@.len() == 0 && out.error@ == public_text(
                    e.spec_kind(),
                    e.detail(),
                ),
            },
    {
        match outcome {
            Ok(pca) => ExchangeResponse { pca, error: String::new() },
            Err(e) => ExchangeResponse { pca: Vec::new(), error: e.public_message() },
        }
    }
}

/// Why an exchange request is turned down before any token is looked at:
/// the kind of the fault and the text that the caller is answered with;
/// nothing where it is not turned down. A bridge that is absent or
/// disabled is `NotFound`; any other fault is `Invalid`.
pub open spec fn request_fault(registry: BridgeRegistry, bridge_id: Seq<char>, credential: Seq<u8>) -> Option<
    (ErrorKind, Seq<char>),
> {
    if bridge_id.len() == 0 {
        Some((ErrorKind::Invalid, "bridge_id is required"@))
    } else if credential.len() == 0 {
        Some((ErrorKind::Invalid, "credential is required"@))
    } else if registry.lookup_enabled(bridge_id) is None {
        Some((ErrorKind::NotFound, "Bridge not found or disabled: "@ + bridge_id))
    } else if !vstd::utf8::valid_utf8(credential) {
        Some((ErrorKind::Invalid, "Invalid UTF-8 in credential"@))
    } else {
        None
    }
}

/// The JWT configuration of a bridge.
pub open spec fn jwt_of(c: BridgeConfigView) -> JwtBridgeView {
    match c.config {
        BridgeTypeConfigView::Jwt(jwt) => jwt,
    }
}

/// Looks at an exchange request. A request without bridge or credential,
/// for a bridge that is absent or disabled, or with a credential that is
/// no text, is answered at once, with no PCA. Of any other the token is
/// handed on to be checked, with the configuration of its bridge.
pub fn begin_exchange(registry: &BridgeRegistry, request: &ExchangeRequest) -> (step: ExchangeStep)
    requires
        registry.wf(),
    ensures
        match step {
            ExchangeStep::Respond(kind, r) => r.pca@.len() == 0 && request_fault(
                *registry,
                request.bridge_id@,
                request.credential@,
            ) == Some((kind, r.error@)),
            ExchangeStep::Verify { config, token } => request_fault(
                *registry,
                request.bridge_id@,
                request.credential@,
            ) is None && config@ == jwt_of(
                registry.lookup_enabled(request.bridge_id@)->Some_0,
            ) && token@ == vstd::utf8::decode_utf8(request.credential@),
        },
{
    if request.bridge_id.as_str().is_empty() {
        return ExchangeStep::Respond(
            ErrorKind::Invalid,
            ExchangeResponse::failure(String::from_str("bridge_id is required")),
        );
    }
    if request.credential.len() == 0 {
        return ExchangeStep::Respond(
            ErrorKind::Invalid,
            ExchangeResponse::failure(String::from_str("credential is required")),
        );
    }
    let bridge = match registry.get_enabled(request.bridge_id.as_str()) {
        Some(bridge) => bridge,
        None => {
            return ExchangeStep::Respond(
                ErrorKind::NotFound,
                ExchangeResponse::failure(
                    join2("Bridge not found or disabled: ", request.bridge_id.as_str()),
                ),
            );
        },
    };
    match bridge.config {
        BridgeTypeConfig::Jwt(config) => match text_from_utf8(slice_to_vec(request.credential.as_slice())) {
            Some(token) => ExchangeStep::Verify { config, token },
            None => ExchangeStep::Respond(
                ErrorKind::Invalid,
                ExchangeResponse::failure(String::from_str("Invalid UTF-8 in credential")),
            ),
        },
    }
}

/// Goes on with an exchange once the token was checked.
///
/// The token is turned down unless it was verified, comes from the issuer
/// that the bridge expects, is meant for an audience that the bridge
/// allows, and holds the subject and organization claims. What passes is
/// exchanged for the encoding of a root PCA, minted with the credentials
/// handed in: the bytes decode to that root, at sequence 0 with no
/// predecessor and the credentials' identity as issuer, and its signature
/// is one that the credentials' CAT key accepts.
pub fn complete_exchange(
    config: &JwtBridgeConfig,
    verification: TokenVerification,
    creds: &TrustPlaneCredentials,
    now: u64,
    ttl: u64,
) -> (out: Result<Vec<u8>, Error>)
    ensures
        match out {
            Ok(pca) => exchange_fault(config@, verification@) is None && signable(
                minted_root(
                    creds@,
                    mapped_subject(config@, verification@->Verified_0),
                    mapped_claims(config@, verification@->Verified_0),
                    now,
                    ttl,
                ),
            ) && pca@ == encode_spec(
                minted_root(
                    creds@,
                    mapped_subject(config@, verification@->Verified_0),
                    mapped_claims(config@, verification@->Verified_0),
                    now,
                    ttl,
                ),
            ) && decode_spec(pca@) == Some(
                minted_root(
                    creds@,
                    mapped_subject(config@, verification@->Verified_0),
                    mapped_claims(config@, verification@->Verified_0),
                    now,
                    ttl,
                ),
            ) && (creds.cat_key.wf() ==> ed25519_accepts(
                creds@.cat_key.public,
                signing_bytes(decode_spec(pca@)->Some_0),
                decode_spec(pca@)->Some_0.signature,
            )),
            Err(e) => exchange_fault(config@, verification@) == Some((e.spec_kind(), e.detail()))
                || (exchange_fault(config@, verification@) is None && !signable(
                minted_root(
                    creds@,
                    mapped_subject(config@, verification@->Verified_0),
                    mapped_claims(config@, verification@->Verified_0),
                    now,
                    ttl,
                ),
            ) && e.carries(ErrorKind::Invalid, "PCA is too large to encode"@)),
        },
{
    let token = match verification {
        TokenVerification::Verified(token) => token,
        TokenVerification::Malformed => {
            return Err(Error::Invalid(String::from_str("token is malformed")));
        },
        TokenVerification::UnsupportedAlgorithm => {
            return Err(Error::Invalid(String::from_str("token algorithm is not supported")));
        },
        TokenVerification::KeysUnavailable => {
            return Err(Error::NotFound(String::from_str("token verification keys")));
        },
        TokenVerification::BadSignature => {
            return Err(Error::Crypto(String::from_str("token signature does not verify")));
        },
    };
    if !str_eq(token.issuer.as_str(), config.issuer.as_str()) {
        return Err(Error::Invalid(String::from_str("token issuer is not accepted")));
    }
    if !audiences_accepted(&config.audiences, &token.audiences) {
        return Err(Error::Invalid(String::from_str("token audience is not accepted")));
    }
    let subject = match lookup_claim(&token.claims, config.mapping.subject_claim_name()) {
        Some(subject) => subject,
        None => {
            return Err(Error::Invalid(String::from_str("token lacks the subject claim")));
        },
    };
    let organization = match lookup_claim(
        &token.claims,
        config.mapping.organization_claim_name(),
    ) {
        Some(organization) => organization,
        None => {
            return Err(Error::Invalid(String::from_str("token lacks the organization claim")));
        },
    };
    let scope = match lookup_claim(&token.claims, "scope") {
        Some(scope) => scope,
        None => String::new(),
    };
    let custom = map_custom(&config.mapping.custom, &token.claims);
    let claims = PcaClaims { organization, scope, custom };
    let root = mint_root(creds, subject, claims, now, ttl)?;
    proof {
        law_decode_encode(root@);
    }
    Ok(root.encoded())
}

/// A token for none of the bridge's audiences is never exchanged: the
/// outcome is an `Invalid` error, whatever else the token says, as long
/// as it is verified and comes from the expected issuer.
pub proof fn law_foreign_audience_rejected(config: JwtBridgeView, token: TokenClaimsView)
    requires
        token.issuer == config.issuer,
        !audiences_meet(config.audiences, token.audiences),
    ensures
        exchange_fault(config, TokenVerificationView::Verified(token)) == Some(
            (ErrorKind::Invalid, "token audience is not accepted"@),
        ),
{
}

} // verus!
