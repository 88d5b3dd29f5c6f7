//! Bridge administration: the messages of the admin surface, and what
//! each admin operation does to the registry.

use vstd::prelude::*;
use vstd::string::*;
use crate::bridge::{
    distinct_claims, lemma_merged_distinct, lemma_merged_of_distinct, merge_mappings, merged,
    upsert, with_id, without, BridgeConfig, BridgeConfigView, BridgeRegistry, BridgeType,
    BridgeTypeConfig, BridgeTypeConfigView, ClaimMapping, ClaimMappingView, JwtBridgeConfig,
    JwtBridgeView, MappingConfig, MappingView,
};
use crate::error::{kind_prefix, ErrorKind, Status, StatusCode};
use crate::text::join2;

verus! {

/// Wire value of a bridge type that was not set.
pub const BRIDGE_TYPE_UNSPECIFIED: i32 = 0;

/// Wire value of the JWT bridge type.
pub const BRIDGE_TYPE_JWT: i32 = 1;

/// Claim mapping as the admin surface carries it.
#[derive(Debug)]
pub struct ProtoMappingConfig {
    pub subject_claim: String,
    pub organization_claim: String,
    pub custom: Vec<ClaimMapping>,
}

/// JWT bridge configuration as the admin surface carries it.
#[derive(Debug)]
pub struct ProtoJwtBridgeConfig {
    pub wellknown_url: String,
    pub issuer: String,
    pub audiences: Vec<String>,
    pub mapping: Option<ProtoMappingConfig>,
}

/// Type-specific configuration as the admin surface carries it.
#[derive(Debug)]
pub enum ProtoConfig {
    Jwt(ProtoJwtBridgeConfig),
}

/// Bridge configuration as the admin surface carries it.
#[derive(Debug)]
pub struct ProtoBridgeConfig {
    pub id: String,
    pub bridge_type: i32,
    pub enabled: bool,
    pub config: Option<ProtoConfig>,
}

/// The mathematical form of a JWT bridge message.
pub ghost struct ProtoJwtView {
    pub wellknown_url: Seq<char>,
    pub issuer: Seq<char>,
    pub audiences: Seq<Seq<char>>,
    pub mapping: Option<MappingView>,
}

/// The mathematical form of a bridge message; `jwt` is its type-specific
/// part, where it carries one.
pub ghost struct ProtoBridgeView {
    pub id: Seq<char>,
    pub bridge_type: i32,
    pub enabled: bool,
    pub jwt: Option<ProtoJwtView>,
}

impl View for ProtoMappingConfig {
    type V = MappingView;

    open spec fn view(&self) -> MappingView {
        MappingView {
            subject_claim: self.subject_claim@,
            organization_claim: self.organization_claim@,
            custom: self.custom.deep_view(),
        }
    }
}

impl DeepView for ProtoMappingConfig {
    type V = MappingView;

    open spec fn deep_view(&self) -> MappingView {
        self.view()
    }
}

impl View for ProtoJwtBridgeConfig {
    type V = ProtoJwtView;

    open spec fn view(&self) -> ProtoJwtView {
        ProtoJwtView {
            wellknown_url: self.wellknown_url@,
            issuer: self.issuer@,
            audiences: self.audiences.deep_view(),
            mapping: self.mapping.deep_view(),
        }
    }
}

impl View for ProtoBridgeConfig {
    type V = ProtoBridgeView;

    open spec fn view(&self) -> ProtoBridgeView {
        ProtoBridgeView {
            id: self.id@,
            bridge_type: self.bridge_type,
            enabled: self.enabled,
            jwt: match self.config {
                Some(ProtoConfig::Jwt(jwt)) => Some(jwt@),
                None => None,
            },
        }
    }
}

impl DeepView for ProtoBridgeConfig {
    type V = ProtoBridgeView;

    open spec fn deep_view(&self) -> ProtoBridgeView {
        self.view()
    }
}

/// The message that stands for the configuration `c`.
pub open spec fn proto_of(c: BridgeConfigView) -> ProtoBridgeView {
    match c.config {
        BridgeTypeConfigView::Jwt(jwt) => ProtoBridgeView {
            id: c.id,
            bridge_type: BRIDGE_TYPE_JWT,
            enabled: c.enabled,
            jwt: Some(
                ProtoJwtView {
                    wellknown_url: jwt.wellknown_url,
                    issuer: jwt.issuer,
                    audiences: jwt.audiences,
                    mapping: Some(jwt.mapping),
                },
            ),
        },
    }
}

/// The mapping that a message asks for: what it carries, with "sub" and
/// "org" where it names no subject or organization claim, with its custom
/// mappings merged so that every claim is mapped once, and the plain
/// defaults where it carries no mapping at all.
pub open spec fn mapping_of(m: Option<MappingView>) -> MappingView {
    match m {
        Some(m) => MappingView {
            subject_claim: if m.subject_claim.len() == 0 {
                "sub"@
            } else {
                m.subject_claim
            },
            organization_claim: if m.organization_claim.len() == 0 {
                "org"@
            } else {
                m.organization_claim
            },
            custom: merged(m.custom),
        },
        None => MappingView { subject_claim: "sub"@, organization_claim: "org"@, custom: Seq::empty() },
    }
}

/// Why a message stands for no configuration; nothing where it does.
pub open spec fn proto_fault(p: ProtoBridgeView) -> Option<Seq<char>> {
    if p.bridge_type != BRIDGE_TYPE_UNSPECIFIED && p.bridge_type != BRIDGE_TYPE_JWT {
        Some("Invalid bridge type"@)
    } else if p.bridge_type == BRIDGE_TYPE_UNSPECIFIED {
        Some("Unsupported bridge type"@)
    } else if p.jwt is None {
        Some("JWT config required for JWT bridge"@)
    } else {
        None
    }
}

/// The configuration that the message `p` stands for.
pub open spec fn config_of(p: ProtoBridgeView) -> BridgeConfigView {
    BridgeConfigView {
        id: p.id,
        bridge_type: BridgeType::Jwt,
        enabled: p.enabled,
        config: BridgeTypeConfigView::Jwt(
            JwtBridgeView {
                wellknown_url: p.jwt->Some_0.wellknown_url,
                issuer: p.jwt->Some_0.issuer,
                audiences: p.jwt->Some_0.audiences,
                mapping: mapping_of(p.jwt->Some_0.mapping),
            },
        ),
    }
}

/// Writes a configuration as a message.
pub fn to_proto_bridge_config(config: BridgeConfig) -> (out: ProtoBridgeConfig)
    ensures
        out@ == proto_of(config@),
{
    let bridge_type = match config.bridge_type {
        BridgeType::Jwt => BRIDGE_TYPE_JWT,
    };
    let config_oneof = match config.config {
        BridgeTypeConfig::Jwt(jwt) => Some(
            ProtoConfig::Jwt(
                ProtoJwtBridgeConfig {
                    wellknown_url: jwt.wellknown_url,
                    issuer: jwt.issuer,
                    audiences: jwt.audiences,
                    mapping: Some(
                        ProtoMappingConfig {
                            subject_claim: jwt.mapping.subject_claim,
                            organization_claim: jwt.mapping.organization_claim,
                            custom: jwt.mapping.custom,
                        },
                    ),
                },
            ),
        ),
    };
    ProtoBridgeConfig { id: config.id, bridge_type, enabled: config.enabled, config: config_oneof }
}

/// Reads a configuration from a message. Fails with the status
/// `InvalidArgument` where the bridge type is unknown or unsupported, or
/// the configuration of the type is missing.
pub fn from_proto_bridge_config(proto: ProtoBridgeConfig) -> (out: Result<BridgeConfig, Status>)
    ensures
        match out {
            Ok(c) => proto_fault(proto@) is None && c@ == config_of(proto@) && distinct_claims(
                c@.config->Jwt_0.mapping.custom,
            ),
            Err(s) => s.code == StatusCode::InvalidArgument && proto_fault(proto@) == Some(
                s.message@,
            ),
        },
{
    proof {
        if proto@.jwt is Some && proto@.jwt->Some_0.mapping is Some {
            lemma_merged_distinct(proto@.jwt->Some_0.mapping->Some_0.custom);
        }
    }
    if proto.bridge_type != BRIDGE_TYPE_UNSPECIFIED && proto.bridge_type != BRIDGE_TYPE_JWT {
        return Err(invalid_argument("Invalid bridge type"));
    }
    if proto.bridge_type == BRIDGE_TYPE_UNSPECIFIED {
        return Err(invalid_argument("Unsupported bridge type"));
    }
    let jwt = match proto.config {
        Some(ProtoConfig::Jwt(jwt)) => jwt,
        None => {
            return Err(invalid_argument("JWT config required for JWT bridge"));
        },
    };
    let mapping = match jwt.mapping {
        Some(m) => MappingConfig {
            subject_claim: if m.subject_claim.as_str().is_empty() {
                String::from_str("sub")
            } else {
                m.subject_claim
            },
            organization_claim: if m.organization_claim.as_str().is_empty() {
                String::from_str("org")
            } else {
                m.organization_claim
            },
            custom: merge_mappings(&m.custom),
        },
        None => {
            let custom: Vec<ClaimMapping> = Vec::new();
            assert(custom.deep_view() =~= Seq::<ClaimMappingView>::empty());
            MappingConfig {
                subject_claim: String::from_str("sub"),
                organization_claim: String::from_str("org"),
                custom,
            }
        },
    };
    Ok(
        BridgeConfig {
            id: proto.id,
            bridge_type: BridgeType::Jwt,
            enabled: proto.enabled,
            config: BridgeTypeConfig::Jwt(
                JwtBridgeConfig {
                    wellknown_url: jwt.wellknown_url,
                    issuer: jwt.issuer,
                    audiences: jwt.audiences,
                    mapping,
                },
            ),
        },
    )
}

fn invalid_argument(message: &str) -> (out: Status)
    ensures
        out.code == StatusCode::InvalidArgument,
        out.message@ == message@,
{
    Status { code: StatusCode::InvalidArgument, message: String::from_str(message) }
}

/// Reading back what was written gives the configuration that was
/// written, but for the mapping's defaults, which are filled in, and for
/// its custom mappings, which are merged; mappings that map every claim
/// once come back as they were.
pub proof fn law_proto_round_trip(c: BridgeConfigView)
    ensures
        distinct_claims(c.config->Jwt_0.mapping.custom) ==> mapping_of(
            Some(c.config->Jwt_0.mapping),
        ).custom == c.config->Jwt_0.mapping.custom,
        proto_fault(proto_of(c)) is None,
        config_of(proto_of(c)) == (BridgeConfigView {
            bridge_type: BridgeType::Jwt,
            config: BridgeTypeConfigView::Jwt(
                JwtBridgeView {
                    mapping: mapping_of(Some(c.config->Jwt_0.mapping)),
                    ..c.config->Jwt_0
                },
            ),
            ..c
        }),
{
    if distinct_claims(c.config->Jwt_0.mapping.custom) {
        lemma_merged_of_distinct(c.config->Jwt_0.mapping.custom);
    }
}

/// Answer to a listing.
#[derive(Debug)]
pub struct ListBridgesResponse {
    pub bridges: Vec<ProtoBridgeConfig>,
}

/// Request for one bridge.
#[derive(Debug)]
pub struct GetBridgeRequest {
    pub id: String,
}

/// Answer with one bridge, or with an error text and none.
#[derive(Debug)]
pub struct GetBridgeResponse {
    pub bridge: Option<ProtoBridgeConfig>,
    pub error: String,
}

/// Request to store a bridge.
#[derive(Debug)]
pub struct AddBridgeRequest {
    pub bridge: Option<ProtoBridgeConfig>,
}

/// Answer with the identifier a bridge was stored under, or with an error
/// text and none.
#[derive(Debug)]
pub struct AddBridgeResponse {
    pub id: String,
    pub error: String,
}

/// Request to replace a bridge.
#[derive(Debug)]
pub struct UpdateBridgeRequest {
    pub bridge: Option<ProtoBridgeConfig>,
}

/// Answer to a replacement.
#[derive(Debug)]
pub struct UpdateBridgeResponse {
    pub success: bool,
    pub error: String,
}

/// Request to remove a bridge.
#[derive(Debug)]
pub struct RemoveBridgeRequest {
    pub id: String,
}

/// Answer to a removal.
#[derive(Debug)]
pub struct RemoveBridgeResponse {
    pub success: bool,
    pub error: String,
}

/// Why a request that should carry a bridge is rejected as a whole;
/// nothing where it is not.
pub open spec fn bridge_fault(bridge: Option<ProtoBridgeView>) -> Option<Seq<char>> {
    match bridge {
        None => Some("Bridge config required"@),
        Some(p) => proto_fault(p),
    }
}

fn bridge_of(bridge: Option<ProtoBridgeConfig>) -> (out: Result<BridgeConfig, Status>)
    ensures
        match out {
            Ok(c) => bridge_fault(bridge.deep_view()) is None && c@ == config_of(
                bridge.deep_view()->Some_0,
            ),
            Err(s) => s.code == StatusCode::InvalidArgument && bridge_fault(bridge.deep_view())
                == Some(s.message@),
        },
{
    match bridge {
        Some(proto) => from_proto_bridge_config(proto),
        None => Err(invalid_argument("Bridge config required")),
    }
}

/// Lists every bridge, as messages, in storage order.
pub fn list_bridges(registry: &BridgeRegistry) -> (out: ListBridgesResponse)
    requires
        registry.wf(),
    ensures
        out.bridges.deep_view() == registry.entries().map_values(|c: BridgeConfigView| proto_of(c)),
{
    let all = registry.list();
    let ghost want = registry.entries().map_values(|c: BridgeConfigView| proto_of(c));
    let mut bridges: Vec<ProtoBridgeConfig> = Vec::new();
    let mut i: usize = 0;
    while i < all.len()
        invariant
            i <= all.len(),
            all.deep_view() == registry.entries(),
            bridges.len() == i,
            forall|j: int| 0 <= j < i ==> bridges@[j]@ == proto_of(all@[j]@),
        decreases all.len() - i,
    {
        bridges.push(to_proto_bridge_config(all[i].clone()));
        i += 1;
    }
    assert(bridges.deep_view() =~= want) by {
        assert forall|j: int| 0 <= j < want.len() implies bridges.deep_view()[j] == want[j] by {
            assert(all.deep_view()[j] == all@[j]@);
        }
    }
    ListBridgesResponse { bridges }
}

/// Answers with the bridge stored under the requested identifier.
pub fn get_bridge(registry: &BridgeRegistry, request: &GetBridgeRequest) -> (out: GetBridgeResponse)
    requires
        registry.wf(),
    ensures
        match registry.lookup(request.id@) {
            Some(c) => out.bridge.deep_view() == Some(proto_of(c)) && out.error@.len() == 0,
            None => out.bridge is None && out.error@ == "Bridge not found: "@ + request.id@,
        },
{
    match registry.get(request.id.as_str()) {
        Some(bridge) => GetBridgeResponse {
            bridge: Some(to_proto_bridge_config(bridge)),
            error: String::new(),
        },
        None => GetBridgeResponse {
            bridge: None,
            error: join2("Bridge not found: ", request.id.as_str()),
        },
    }
}

/// Stores the bridge of the request. A request without a bridge, or with
/// one that stands for no configuration, is rejected with a status and
/// leaves the registry as it is. A bridge that names its identifier is
/// always stored, under that identifier; one that names none is stored
/// under a generated identifier, unless that is in use already, which
/// takes a registry that holds an identifier of 36 characters.
pub fn add_bridge(registry: &mut BridgeRegistry, request: AddBridgeRequest) -> (out: Result<
    AddBridgeResponse,
    Status,
>)
    requires
        old(registry).wf(),
    ensures
        final(registry).wf(),
        match out {
            Err(s) => s.code == StatusCode::InvalidArgument && bridge_fault(
                request.bridge.deep_view(),
            ) == Some(s.message@) && final(registry).entries() == old(registry).entries(),
            Ok(r) => bridge_fault(request.bridge.deep_view()) is None && (config_of(
                request.bridge.deep_view()->Some_0,
            ).id.len() > 0 ==> r.error@.len() == 0 && r.id@ == config_of(
                request.bridge.deep_view()->Some_0,
            ).id) && (if r.error@.len() == 0 {
                r.id@.len() > 0 && final(registry).entries() == upsert(
                    old(registry).entries(),
                    with_id(config_of(request.bridge.deep_view()->Some_0), r.id@),
                )
            } else {
                r.id@.len() == 0 && r.error@ == kind_prefix(ErrorKind::Internal)
                    + "generated bridge id is not usable"@ && final(registry).entries() == old(
                    registry,
                ).entries() && exists|id: Seq<char>|
                    #[trigger] old(registry)@.dom().contains(id) && id.len() == 36
            }),
        },
{
    let config = bridge_of(request.bridge)?;
    match registry.add(config) {
        Ok(id) => Ok(AddBridgeResponse { id, error: String::new() }),
        Err(e) => {
            let error = e.message();
            proof {
                reveal_strlit("internal error: ");
            }
            Ok(AddBridgeResponse { id: String::new(), error })
        },
    }
}

/// Replaces the bridge of the request. A request without a bridge, or
/// with one that stands for no configuration, is rejected with a status.
/// A bridge that is not stored is answered with `success` unset and the
/// text of the `NotFound` error.
pub fn update_bridge(registry: &mut BridgeRegistry, request: UpdateBridgeRequest) -> (out: Result<
    UpdateBridgeResponse,
    Status,
>)
    requires
        old(registry).wf(),
    ensures
        final(registry).wf(),
        match out {
            Err(s) => s.code == StatusCode::InvalidArgument && bridge_fault(
                request.bridge.deep_view(),
            ) == Some(s.message@) && final(registry).entries() == old(registry).entries(),
            Ok(r) => bridge_fault(request.bridge.deep_view()) is None && ({
                let config = config_of(request.bridge.deep_view()->Some_0);
                if old(registry).lookup(config.id) is Some {
                    r.success && r.error@.len() == 0 && final(registry).entries() == upsert(
                        old(registry).entries(),
                        config,
                    )
                } else {
                    !r.success && r.error@ == kind_prefix(ErrorKind::NotFound) + config.id
                        && final(registry).entries() == old(registry).entries()
                }
            }),
        },
{
    let config = bridge_of(request.bridge)?;
    match registry.update(config) {
        Ok(_) => Ok(UpdateBridgeResponse { success: true, error: String::new() }),
        Err(e) => Ok(UpdateBridgeResponse { success: false, error: e.message() }),
    }
}

/// Removes the bridge stored under the requested identifier. A bridge
/// that is not stored is answered with `success` unset and the text of
/// the `NotFound` error.
pub fn remove_bridge(registry: &mut BridgeRegistry, request: &RemoveBridgeRequest) -> (out:
    RemoveBridgeResponse)
    requires
        old(registry).wf(),
    ensures
        final(registry).wf(),
        final(registry).entries() == without(old(registry).entries(), request.id@),
        if old(registry).lookup(request.id@) is Some {
            out.success && out.error@.len() == 0
        } else {
            !out.success && out.error@ == kind_prefix(ErrorKind::NotFound) + request.id@
        },
{
    match registry.remove(request.id.as_str()) {
        Ok(_) => RemoveBridgeResponse { success: true, error: String::new() },
        Err(e) => RemoveBridgeResponse { success: false, error: e.message() },
    }
}

} // verus!
