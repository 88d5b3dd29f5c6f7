//! The HTTP surface: what each route answers, as a status and a body.

use vstd::prelude::*;
use vstd::string::*;
use crate::bridge::{
    without, BridgeConfig, BridgeConfigView, BridgeRegistry, BridgeType, JwtBridgeConfig,
};
use crate::cat::{
    prior_of, transition, transition_fault, transition_result, DEFAULT_TTL_SECONDS,
};
use crate::clock::now_seconds;
use crate::credentials::did::DidDocument;
use crate::credentials::keys::{ed25519_accepts, public_jwk_of, Jwk};
use crate::credentials::{CredentialsManager, SelfCredential};
use crate::encoding::{
    base64_bytes, base64_decode, base64_encode, base64_text, MAX_ENCODE_LEN,
};
use crate::error::{http_status_of, kind_prefix, public_text, status_of, ErrorKind};
use crate::exchange::{
    begin_exchange, complete_exchange, exchange_fault, jwt_of, mapped_claims, mapped_subject,
    request_fault, ExchangeRequest, ExchangeStep, TokenVerification,
};
use crate::pca::{decode_spec, encode_spec, minted_root, signable, signing_bytes};
use crate::text::join2;

verus! {

/// The state that every route works on.
pub struct AppState {
    pub credentials: CredentialsManager,
    pub registry: BridgeRegistry,
}

impl AppState {
    /// The credentials are sound and the registry holds no identifier twice.
    pub open spec fn wf(&self) -> bool {
        self.credentials.wf() && self.registry.wf()
    }
}

/// Body of a transition request.
#[derive(Debug)]
pub struct CatTransitionRequest {
    /// Base64-encoded PCA
    pub pca: String,
    /// Base64-encoded PCA before it in the chain; empty for a root
    pub prior_pca: String,
}

/// Body of the answer to a transition.
#[derive(Debug)]
pub struct CatTransitionResponse {
    /// Base64-encoded new PCA (empty on error)
    pub pca: String,
    /// Error message (empty on success)
    pub error: String,
}

/// Body of an exchange request.
#[derive(Debug)]
pub struct BridgeExchangeRequest {
    /// Bridge configuration ID
    pub bridge_id: String,
    /// Base64-encoded credential
    pub credential: String,
}

/// Body of the answer to an exchange.
#[derive(Debug)]
pub struct BridgeExchangeResponse {
    /// Base64-encoded root PCA (empty on error)
    pub pca: String,
    /// Error message (empty on success)
    pub error: String,
}

/// What the admin routes show of a bridge.
#[derive(Debug)]
pub struct BridgeInfo {
    pub id: String,
    pub bridge_type: String,
    pub enabled: bool,
}

/// Body of the answer to a listing.
#[derive(Debug)]
pub struct ListBridgesResponse {
    pub bridges: Vec<BridgeInfo>,
}

/// The discovery metadata of the Trust Plane.
#[derive(Debug)]
pub struct TrustPlaneMetadata {
    pub did: String,
    pub organization: String,
    pub issuer_kid: String,
    pub cat_kid: String,
    pub issuer_public_key: Jwk,
    pub cat_public_key: Jwk,
    pub credential: SelfCredential,
}

/// The mathematical form of what the admin routes show of a bridge.
pub ghost struct BridgeInfoView {
    pub id: Seq<char>,
    pub bridge_type: Seq<char>,
    pub enabled: bool,
}

impl View for BridgeInfo {
    type V = BridgeInfoView;

    open spec fn view(&self) -> BridgeInfoView {
        BridgeInfoView { id: self.id@, bridge_type: self.bridge_type@, enabled: self.enabled }
    }
}

impl DeepView for BridgeInfo {
    type V = BridgeInfoView;

    open spec fn deep_view(&self) -> BridgeInfoView {
        self.view()
    }
}

/// What the admin routes show of the configuration `c`.
pub open spec fn info_of(c: BridgeConfigView) -> BridgeInfoView {
    BridgeInfoView {
        id: c.id,
        bridge_type: match c.bridge_type {
            BridgeType::Jwt => "Jwt"@,
        },
        enabled: c.enabled,
    }
}

fn info(config: &BridgeConfig) -> (out: BridgeInfo)
    ensures
        out@ == info_of(config@),
{
    BridgeInfo {
        id: config.id.clone(),
        bridge_type: match config.bridge_type {
            BridgeType::Jwt => String::from_str("Jwt"),
        },
        enabled: config.enabled,
    }
}

/// `GET /.well-known/did.json`: the current identity document.
pub fn did_document(state: &AppState) -> (out: DidDocument)
    ensures
        out@ == state.credentials.snapshot().did_document@,
{
    let creds = state.credentials.current();
    creds.did_document.clone()
}

/// `GET /.well-known/trustplane.json`: identity, organization, both public
/// keys and the self-issued credential of the current snapshot.
pub fn trustplane_metadata(state: &AppState) -> (out: TrustPlaneMetadata)
    ensures
        out.did@ == state.credentials.snapshot()@.did,
        out.organization@ == state.credentials.snapshot()@.organization,
        out.issuer_kid@ == state.credentials.snapshot()@.issuer_key.kid,
        out.cat_kid@ == state.credentials.snapshot()@.cat_key.kid,
        out.issuer_public_key@ == public_jwk_of(
            state.credentials.snapshot()@.issuer_key.kid,
            state.credentials.snapshot()@.issuer_key.public,
        ),
        out.cat_public_key@ == public_jwk_of(
            state.credentials.snapshot()@.cat_key.kid,
            state.credentials.snapshot()@.cat_key.public,
        ),
        out.credential@ == state.credentials.snapshot()@.credential,
{
    let creds = state.credentials.current();
    TrustPlaneMetadata {
        did: creds.did.clone(),
        organization: creds.organization.clone(),
        issuer_kid: String::from_str(creds.issuer_key.kid()),
        cat_kid: String::from_str(creds.cat_key.kid()),
        issuer_public_key: creds.issuer_key.public_jwk(),
        cat_public_key: creds.cat_key.public_jwk(),
        credential: creds.credential.clone(),
    }
}

/// `GET /health`.
pub fn health() -> (out: &'static str)
    ensures
        out@ == "OK"@,
{
    "OK"
}

/// `GET /ready`.
pub fn ready() -> (out: &'static str)
    ensures
        out@ == "OK"@,
{
    "OK"
}

/// `GET /metrics`: one gauge that says the Trust Plane is up.
pub fn metrics() -> (out: String)
    ensures
        out@
            == "# HELP trustplane_up Trust Plane is up\n# TYPE trustplane_up gauge\ntrustplane_up 1\n"@,
{
    String::from_str(
        "# HELP trustplane_up Trust Plane is up\n# TYPE trustplane_up gauge\ntrustplane_up 1\n",
    )
}

fn transition_failure(status: u16, error: String) -> (out: (u16, CatTransitionResponse))
    ensures
        out.0 == status,
        out.1.pca@.len() == 0,
        out.1.error@ == error@,
{
    (status, CatTransitionResponse { pca: String::new(), error })
}

fn exchange_failure(status: u16, error: String) -> (out: (u16, BridgeExchangeResponse))
    ensures
        out.0 == status,
        out.1.pca@.len() == 0,
        out.1.error@ == error@,
{
    (status, BridgeExchangeResponse { pca: String::new(), error })
}

/// What is wrong with the body of a transition request; nothing where it
/// can be handed to the engine.
pub open spec fn transition_body_fault(pca: Seq<char>, prior_pca: Seq<char>) -> Option<Seq<char>> {
    if pca.len() == 0 {
        Some("pca is required"@)
    } else if base64_bytes(pca) is None {
        Some("Invalid base64"@)
    } else if prior_pca.len() > 0 && base64_bytes(prior_pca) is None {
        Some("Invalid base64"@)
    } else {
        None
    }
}

/// The prior PCA that the body of a transition request supplies.
pub open spec fn body_prior(prior_pca: Seq<char>) -> Option<Seq<u8>> {
    if prior_pca.len() == 0 {
        None
    } else {
        prior_of(base64_bytes(prior_pca)->Some_0)
    }
}

/// What the transition route answers at the time `now`: the body `pca`,
/// `prior_pca` is answered with `status` and the body `out_pca`,
/// `out_error`.
///
/// A body without a PCA, or with one that is no base64, is answered with
/// 400. Any other is answered as the engine decides: the next PCA comes
/// back as base64 with 200, a fault with the status of its kind and with
/// what a caller is told of it.
pub open spec fn transition_route_answered(
    manager: CredentialsManager,
    pca: Seq<char>,
    prior_pca: Seq<char>,
    now: u64,
    ttl: u64,
    status: u16,
    out_pca: Seq<char>,
    out_error: Seq<char>,
) -> bool {
    match transition_body_fault(pca, prior_pca) {
        Some(text) => status == 400 && out_pca.len() == 0 && out_error == text,
        None => match transition_fault(
            manager,
            base64_bytes(pca)->Some_0,
            body_prior(prior_pca),
            now,
            ttl,
        ) {
            Some((kind, detail)) => status == http_status_of(kind) && out_pca.len() == 0
                && out_error == public_text(kind, detail),
            None => {
                let next = transition_result(manager, base64_bytes(pca)->Some_0, now, ttl);
                if next.len() <= MAX_ENCODE_LEN {
                    status == 200 && out_pca == base64_text(next) && out_error.len() == 0
                } else {
                    status == 500 && out_pca.len() == 0 && out_error == "internal error"@
                }
            },
        },
    }
}

/// `POST /v1/cat/transition` at the time `now`.
///
/// A body without a PCA, or with one that is no base64, is answered with
/// 400. Any other is handed to the engine: the next PCA comes back as
/// base64 with 200, an error with the status of its kind and with what a
/// caller is told of it.
pub fn cat_transition_at(state: &AppState, request: &CatTransitionRequest, now: u64, ttl: u64) -> (out:
    (u16, CatTransitionResponse))
    requires
        state.wf(),
    ensures
        transition_route_answered(
            state.credentials,
            request.pca@,
            request.prior_pca@,
            now,
            ttl,
            out.0,
            out.1.pca@,
            out.1.error@,
        ),
{
    if request.pca.as_str().is_empty() {
        return transition_failure(400, String::from_str("pca is required"));
    }
    let pca = match base64_decode(request.pca.as_str()) {
        Some(pca) => pca,
        None => {
            return transition_failure(400, String::from_str("Invalid base64"));
        },
    };
    let prior_bytes = if request.prior_pca.as_str().is_empty() {
        Vec::new()
    } else {
        match base64_decode(request.prior_pca.as_str()) {
            Some(prior) => prior,
            None => {
                return transition_failure(400, String::from_str("Invalid base64"));
            },
        }
    };
    let prior = if prior_bytes.len() == 0 {
        None
    } else {
        Some(prior_bytes.as_slice())
    };
    match transition(&state.credentials, pca.as_slice(), prior, now, ttl) {
        Ok(next) => {
            if next.len() <= MAX_ENCODE_LEN {
                (
                    200,
                    CatTransitionResponse {
                        pca: base64_encode(next.as_slice()),
                        error: String::new(),
                    },
                )
            } else {
                transition_failure(500, String::from_str("internal error"))
            }
        },
        Err(e) => transition_failure(e.http_status(), e.public_message()),
    }
}

/// `POST /v1/cat/transition` at the current time, with the default
/// lifetime for the PCA it mints: the answer is that of
/// [`cat_transition_at`] at some time, which the system clock decides. An
/// answer with a PCA has status 200 and no error; any other has no PCA.
pub fn cat_transition(state: &AppState, request: &CatTransitionRequest) -> (out: (
    u16,
    CatTransitionResponse,
))
    requires
        state.wf(),
    ensures
        exists|now: u64| #[trigger]
            transition_route_answered(
                state.credentials,
                request.pca@,
                request.prior_pca@,
                now,
                DEFAULT_TTL_SECONDS,
                out.0,
                out.1.pca@,
                out.1.error@,
            ),
        request.pca@.len() == 0 ==> out.0 == 400 && out.1.error@ == "pca is required"@,
        out.0 == 200 ==> out.1.error@.len() == 0,
        out.0 != 200 ==> out.1.pca@.len() == 0,
{
    let now = now_seconds();
    let out = cat_transition_at(state, request, now, DEFAULT_TTL_SECONDS);
    assert(transition_route_answered(
        state.credentials,
        request.pca@,
        request.prior_pca@,
        now,
        DEFAULT_TTL_SECONDS,
        out.0,
        out.1.pca@,
        out.1.error@,
    ));
    out
}

/// What the exchange route does next.
#[derive(Debug)]
pub enum HttpExchangeStep {
    /// Answer with this status and body.
    Respond(u16, BridgeExchangeResponse),
    /// Fetch the keys behind the bridge's key discovery endpoint and check
    /// the token against them, then go on with `bridge_exchange_complete`.
    Verify { config: JwtBridgeConfig, token: String },
}

/// Why the body of an exchange request is answered at once, as a status
/// and an error text; nothing where the token is handed on to be checked.
///
/// The body is looked at in this order, and the first fault decides. It
/// names a bridge and holds a credential, else 400. The bridge is stored
/// and enabled, else 404, whatever the credential holds. The credential is
/// base64, else 400. What it stands for is then looked at as the engine
/// looks at a request, and a fault is answered with the status of its kind.
pub open spec fn exchange_body_fault(
    registry: BridgeRegistry,
    bridge_id: Seq<char>,
    credential: Seq<char>,
) -> Option<(u16, Seq<char>)> {
    if bridge_id.len() == 0 {
        Some((400u16, "bridge_id is required"@))
    } else if credential.len() == 0 {
        Some((400u16, "credential is required"@))
    } else if registry.lookup_enabled(bridge_id) is None {
        Some((404u16, "Bridge not found or disabled: "@ + bridge_id))
    } else if base64_bytes(credential) is None {
        Some((400u16, "Invalid base64"@))
    } else {
        match request_fault(registry, bridge_id, base64_bytes(credential)->Some_0) {
            Some((kind, text)) => Some((http_status_of(kind), text)),
            None => None,
        }
    }
}

/// `POST /v1/bridge/exchange`, up to the verification of the token.
///
/// A body without bridge or credential is answered with 400. A bridge
/// that is absent or disabled is answered with 404, before the credential
/// is read. A credential that is no base64 or no text is answered with
/// 400. Of any other the token is handed on to be checked. The registry is
/// only read.
pub fn bridge_exchange(state: &AppState, request: &BridgeExchangeRequest) -> (step:
    HttpExchangeStep)
    requires
        state.wf(),
    ensures
        match step {
            HttpExchangeStep::Respond(status, body) => exchange_body_fault(
                state.registry,
                request.bridge_id@,
                request.credential@,
            ) == Some((status, body.error@)) && body.pca@.len() == 0,
            HttpExchangeStep::Verify { config, token } => exchange_body_fault(
                state.registry,
                request.bridge_id@,
                request.credential@,
            ) is None && config@ == jwt_of(
                state.registry.lookup_enabled(request.bridge_id@)->Some_0,
            ) && token@ == vstd::utf8::decode_utf8(base64_bytes(request.credential@)->Some_0),
        },
        request.bridge_id@.len() > 0 && request.credential@.len() > 0
            && state.registry.lookup_enabled(request.bridge_id@) is None ==> step
            is Respond && step->Respond_0 == 404 && step->Respond_1.pca@.len() == 0
            && step->Respond_1.error@ == "Bridge not found or disabled: "@ + request.bridge_id@,
{
    if request.bridge_id.as_str().is_empty() {
        let (status, body) = exchange_failure(400, String::from_str("bridge_id is required"));
        return HttpExchangeStep::Respond(status, body);
    }
    if request.credential.as_str().is_empty() {
        let (status, body) = exchange_failure(400, String::from_str("credential is required"));
        return HttpExchangeStep::Respond(status, body);
    }
    if state.registry.get_enabled(request.bridge_id.as_str()).is_none() {
        let (status, body) = exchange_failure(
            404,
            join2("Bridge not found or disabled: ", request.bridge_id.as_str()),
        );
        return HttpExchangeStep::Respond(status, body);
    }
    let credential = match base64_decode(request.credential.as_str()) {
        Some(credential) => credential,
        None => {
            let (status, body) = exchange_failure(400, String::from_str("Invalid base64"));
            return HttpExchangeStep::Respond(status, body);
        },
    };
    let inner = ExchangeRequest { bridge_id: request.bridge_id.clone(), credential };
    match begin_exchange(&state.registry, &inner) {
        ExchangeStep::Respond(kind, r) => {
            let (status, body) = exchange_failure(status_of(kind), r.error);
            HttpExchangeStep::Respond(status, body)
        },
        ExchangeStep::Verify { config, token } => HttpExchangeStep::Verify { config, token },
    }
}

/// `POST /v1/bridge/exchange`, once the token was checked.
///
/// The root PCA comes back as base64 with 200, an error with the status
/// of its kind and with what a caller is told of it. The bytes behind the
/// base64 decode to the root that was minted, and the current CAT key
/// accepts its signature.
pub fn bridge_exchange_complete(
    state: &AppState,
    config: &JwtBridgeConfig,
    verification: TokenVerification,
    now: u64,
    ttl: u64,
) -> (out: (u16, BridgeExchangeResponse))
    requires
        state.wf(),
    ensures
        match exchange_fault(config@, verification@) {
            Some((kind, detail)) => out.0 == http_status_of(kind) && out.1.pca@.len() == 0
                && out.1.error@ == public_text(kind, detail),
            None => {
                let root = minted_root(
                    state.credentials.snapshot()@,
                    mapped_subject(config@, verification@->Verified_0),
                    mapped_claims(config@, verification@->Verified_0),
                    now,
                    ttl,
                );
                if !signable(root) {
                    out.0 == 400 && out.1.pca@.len() == 0 && out.1.error@ == public_text(
                        ErrorKind::Invalid,
                        "PCA is too large to encode"@,
                    )
                } else if encode_spec(root).len() > MAX_ENCODE_LEN {
                    out.0 == 500 && out.1.pca@.len() == 0 && out.1.error@ == "internal error"@
                } else {
                    out.0 == 200 && out.1.pca@ == base64_text(encode_spec(root))
                        && out.1.error@.len() == 0 && decode_spec(encode_spec(root)) == Some(root)
                        && ed25519_accepts(
                        state.credentials.snapshot()@.cat_key.public,
                        signing_bytes(root),
                        root.signature,
                    )
                }
            },
        },
{
    let creds = state.credentials.current();
    match complete_exchange(config, verification, &creds, now, ttl) {
        Ok(pca) => {
            if pca.len() <= MAX_ENCODE_LEN {
                (
                    200,
                    BridgeExchangeResponse {
                        pca: base64_encode(pca.as_slice()),
                        error: String::new(),
                    },
                )
            } else {
                exchange_failure(500, String::from_str("internal error"))
            }
        },
        Err(e) => exchange_failure(e.http_status(), e.public_message()),
    }
}

/// `GET /v1/bridge-admin/bridges`: every bridge, in storage order.
pub fn list_bridges(state: &AppState) -> (out: ListBridgesResponse)
    requires
        state.wf(),
    ensures
        out.bridges.deep_view() == state.registry.entries().map_values(
            |c: BridgeConfigView| info_of(c),
        ),
{
    let all = state.registry.list();
    let ghost want = state.registry.entries().map_values(|c: BridgeConfigView| info_of(c));
    let mut bridges: Vec<BridgeInfo> = Vec::new();
    let mut i: usize = 0;
    while i < all.len()
        invariant
            i <= all.len(),
            all.deep_view() == state.registry.entries(),
            bridges.len() == i,
            forall|j: int| 0 <= j < i ==> bridges@[j]@ == info_of(all@[j]@),
        decreases all.len() - i,
    {
        bridges.push(info(&all[i]));
        i += 1;
    }
    assert(bridges.deep_view() =~= want) by {
        assert forall|j: int| 0 <= j < want.len() implies bridges.deep_view()[j] == want[j] by {
            assert(all.deep_view()[j] == all@[j]@);
        }
    }
    ListBridgesResponse { bridges }
}

/// `GET /v1/bridge-admin/bridges/:id`: 200 with the bridge, or 404 with
/// an error text.
pub fn get_bridge(state: &AppState, id: &str) -> (out: (u16, Result<BridgeInfo, String>))
    requires
        state.wf(),
    ensures
        match state.registry.lookup(id@) {
            Some(c) => out.0 == 200 && out.1 is Ok && out.1->Ok_0@ == info_of(c),
            None => out.0 == 404 && out.1 is Err && out.1->Err_0@ == "Bridge not found: "@ + id@,
        },
{
    match state.registry.get(id) {
        Some(bridge) => (200, Ok(info(&bridge))),
        None => (404, Err(join2("Bridge not found: ", id))),
    }
}

/// `DELETE /v1/bridge-admin/bridges/:id`: 200 where the bridge was
/// removed, or 404 with the text of the `NotFound` error.
pub fn remove_bridge(state: &mut AppState, id: &str) -> (out: (u16, Result<(), String>))
    requires
        old(state).wf(),
    ensures
        final(state).wf(),
        final(state).credentials == old(state).credentials,
        final(state).registry.entries() == without(old(state).registry.entries(), id@),
        match old(state).registry.lookup(id@) {
            Some(_) => out.0 == 200 && out.1 is Ok,
            None => out.0 == 404 && out.1 is Err && out.1->Err_0@ == kind_prefix(
                ErrorKind::NotFound,
            ) + id@,
        },
{
    match state.registry.remove(id) {
        Ok(_) => (200, Ok(())),
        Err(e) => (404, Err(e.message())),
    }
}

} // verus!
