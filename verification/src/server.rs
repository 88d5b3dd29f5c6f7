//! The two protocol surfaces: which routes and services each exposes
//! under a given configuration.
//!
//! Administration and metrics are optional. A surface that is disabled is
//! not registered at all.

use vstd::prelude::*;

verus! {

/// HTTP method of a route.
#[derive(Clone, Copy, Debug, PartialEq, Eq, Structural)]
pub enum HttpMethod {
    Get,
    Post,
    Delete,
}

/// A route of the HTTP surface.
#[derive(Clone, Copy, Debug, PartialEq, Eq, Structural)]
pub enum Route {
    DidDocument,
    TrustPlaneMetadata,
    Health,
    Ready,
    CatTransition,
    BridgeExchange,
    Metrics,
    ListBridges,
    GetBridge,
    RemoveBridge,
}

/// A service of the RPC surface.
#[derive(Clone, Copy, Debug, PartialEq, Eq, Structural)]
pub enum RpcService {
    Cat,
    Bridge,
    BridgeAdmin,
}

/// Which optional surfaces are enabled.
#[derive(Clone, Copy, Debug, PartialEq, Eq, Structural)]
pub struct Surfaces {
    pub metrics_enabled: bool,
    pub bridge_admin_enabled: bool,
}

impl Route {
    /// Whether the route belongs to bridge administration.
    pub open spec fn is_admin(self) -> bool {
        self == Route::ListBridges || self == Route::GetBridge || self == Route::RemoveBridge
    }

    /// The method of the route.
    pub fn method(self) -> (out: HttpMethod)
        ensures
            out == (match self {
                Route::CatTransition | Route::BridgeExchange => HttpMethod::Post,
                Route::RemoveBridge => HttpMethod::Delete,
                _ => HttpMethod::Get,
            }),
    {
        match self {
            Route::CatTransition | Route::BridgeExchange => HttpMethod::Post,
            Route::RemoveBridge => HttpMethod::Delete,
            _ => HttpMethod::Get,
        }
    }

    /// The path of the route.
    pub fn path(self) -> (out: &'static str)
        ensures
            out@ == (match self {
                Route::DidDocument => "/.well-known/did.json"@,
                Route::TrustPlaneMetadata => "/.well-known/trustplane.json"@,
                Route::Health => "/health"@,
                Route::Ready => "/ready"@,
                Route::CatTransition => "/v1/cat/transition"@,
                Route::BridgeExchange => "/v1/bridge/exchange"@,
                Route::Metrics => "/metrics"@,
                Route::ListBridges => "/v1/bridge-admin/bridges"@,
                Route::GetBridge => "/v1/bridge-admin/bridges/:id"@,
                Route::RemoveBridge => "/v1/bridge-admin/bridges/:id"@,
            }),
    {
        match self {
            Route::DidDocument => "/.well-known/did.json",
            Route::TrustPlaneMetadata => "/.well-known/trustplane.json",
            Route::Health => "/health",
            Route::Ready => "/ready",
            Route::CatTransition => "/v1/cat/transition",
            Route::BridgeExchange => "/v1/bridge/exchange",
            Route::Metrics => "/metrics",
            Route::ListBridges => "/v1/bridge-admin/bridges",
            Route::GetBridge => "/v1/bridge-admin/bridges/:id",
            Route::RemoveBridge => "/v1/bridge-admin/bridges/:id",
        }
    }
}

/// The routes that are always there.
pub open spec fn core_routes() -> Seq<Route> {
    seq![
        Route::DidDocument,
        Route::TrustPlaneMetadata,
        Route::Health,
        Route::Ready,
        Route::CatTransition,
        Route::BridgeExchange,
    ]
}

/// The routes of bridge administration.
pub open spec fn admin_routes() -> Seq<Route> {
    seq![Route::ListBridges, Route::GetBridge, Route::RemoveBridge]
}

/// The routes that the HTTP surface registers under `surfaces`.
pub open spec fn routes_of(surfaces: Surfaces) -> Seq<Route> {
    core_routes() + (if surfaces.metrics_enabled {
        seq![Route::Metrics]
    } else {
        Seq::empty()
    }) + (if surfaces.bridge_admin_enabled {
        admin_routes()
    } else {
        Seq::empty()
    })
}

/// The services that the RPC surface registers under `surfaces`.
pub open spec fn services_of(surfaces: Surfaces) -> Seq<RpcService> {
    if surfaces.bridge_admin_enabled {
        seq![RpcService::Cat, RpcService::Bridge, RpcService::BridgeAdmin]
    } else {
        seq![RpcService::Cat, RpcService::Bridge]
    }
}

impl Surfaces {
    /// The routes to register on the HTTP surface, in order.
    pub fn http_routes(&self) -> (out: Vec<Route>)
        ensures
            out@ == routes_of(*self),
    {
        let mut out: Vec<Route> = Vec::new();
        out.push(Route::DidDocument);
        out.push(Route::TrustPlaneMetadata);
        out.push(Route::Health);
        out.push(Route::Ready);
        out.push(Route::CatTransition);
        out.push(Route::BridgeExchange);
        if self.metrics_enabled {
            out.push(Route::Metrics);
        }
        if self.bridge_admin_enabled {
            out.push(Route::ListBridges);
            out.push(Route::GetBridge);
            out.push(Route::RemoveBridge);
        }
        assert(out@ =~= routes_of(*self));
        out
    }

    /// The services to register on the RPC surface, in order.
    pub fn rpc_services(&self) -> (out: Vec<RpcService>)
        ensures
            out@ == services_of(*self),
    {
        let mut out: Vec<RpcService> = Vec::new();
        out.push(RpcService::Cat);
        out.push(RpcService::Bridge);
        if self.bridge_admin_enabled {
            out.push(RpcService::BridgeAdmin);
        }
        assert(out@ =~= services_of(*self));
        out
    }
}

/// With bridge administration disabled, no administration route and no
/// administration service is registered; with metrics disabled, no
/// metrics route. The engine routes are registered in any case.
pub proof fn law_disabled_surfaces_are_absent(surfaces: Surfaces)
    ensures
        !surfaces.bridge_admin_enabled ==> forall|i: int|
            0 <= i < routes_of(surfaces).len() ==> !(#[trigger] routes_of(surfaces)[i]).is_admin(),
        !surfaces.bridge_admin_enabled ==> !services_of(surfaces).contains(RpcService::BridgeAdmin),
        !surfaces.metrics_enabled ==> !routes_of(surfaces).contains(Route::Metrics),
        routes_of(surfaces).contains(Route::CatTransition),
        routes_of(surfaces).contains(Route::BridgeExchange),
{
    let r = routes_of(surfaces);
    assert(r[4] == Route::CatTransition);
    assert(r[5] == Route::BridgeExchange);
}

} // verus!
