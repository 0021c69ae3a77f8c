//! Route registration and resolution. Routes are tried in registration order;
//! the first whose template matches the normalized path wins.
use vstd::prelude::*;
use crate::client::HttpClient;
use crate::config::{compatible, is_compatible, BackendConfig, EndpointConfig, GatewayProtocol};
use crate::error::{RegistrationError, RoutingError};
use crate::template::{
    fill_from, fits_params, lemma_match_binds_written_values, named_from, bindings_from, compile_template, compiled, match_from, match_segments, normalize_path,
    normalized, pairs_view, regex_of, regex_source, valid_template, Segment,
};
use crate::text::{chars_of, lower_of, lowercase, same_text};
use crate::config::{protocol_from_lowercase, protocol_named};

verus! {

/// A registered endpoint: its template, compiled, and its dispatcher.
#[derive(Debug)]
pub struct Route {
    pub path: String,
    pub segments: Vec<Segment>,
    /// The anchored regex text of the template.
    pub pattern: String,
    pub config: EndpointConfig,
    pub handler: HttpClient,
}

#[derive(Debug)]
pub struct HttpRouter {
    pub routes: Vec<Route>,
}

pub open spec fn route_matches(r: Route, np: Seq<char>) -> bool {
    match_from(r.segments@, 0, np, 0)
}

/// `r` is the resolution of the normalized path `np` among `routes`: the
/// first route that matches, with the parameters it binds, or none.
pub open spec fn resolution(
    routes: Seq<Route>,
    np: Seq<char>,
    r: Option<(usize, Seq<(Seq<char>, Seq<char>)>)>,
) -> bool {
    match r {
        None => forall|i: int| 0 <= i < routes.len() ==> !route_matches(#[trigger] routes[i], np),
        Some((i, ps)) => {
            &&& i < routes.len()
            &&& route_matches(routes[i as int], np)
            &&& forall|j: int| 0 <= j < i ==> !route_matches(#[trigger] routes[j], np)
            &&& ps == bindings_from(routes[i as int].segments@, 0, np, 0)
        },
    }
}

pub open spec fn found_view(r: Option<(usize, Vec<(String, String)>)>) -> Option<
    (usize, Seq<(Seq<char>, Seq<char>)>),
> {
    match r {
        None => None,
        Some((i, v)) => Some((i, pairs_view(v@))),
    }
}

/// Every backend in `bs` can be reached from an endpoint of protocol `g`.
pub open spec fn all_compatible(g: GatewayProtocol, bs: Seq<BackendConfig>) -> bool {
    forall|i: int| 0 <= i < bs.len() ==> compatible(g, #[trigger] bs[i].protocol)
}

/// `r` is the route registered for template `path`.
pub open spec fn route_for(r: Route, path: Seq<char>, config: EndpointConfig, handler: HttpClient) -> bool {
    &&& r.path@ == path
    &&& compiled(path, r.segments@)
    &&& r.pattern@ == regex_of(r.segments@)
    &&& r.config == config
    &&& r.handler == handler
}

fn backends_compatible(g: GatewayProtocol, bs: &Vec<BackendConfig>) -> (r: bool)
    ensures
        r == all_compatible(g, bs@),
{
    let mut i: usize = 0;
    while i < bs.len()
        invariant
            i <= bs@.len(),
            forall|j: int| 0 <= j < i ==> compatible(g, #[trigger] bs@[j].protocol),
        decreases bs@.len() - i,
    {
        if !is_compatible(g, bs[i].protocol) {
            return false;
        }
        i = i + 1;
    }
    true
}

impl HttpRouter {
    pub open spec fn wf(&self) -> bool {
        &&& forall|i: int|
            0 <= i < self.routes@.len() ==> valid_template((#[trigger] self.routes@[i]).path@)
                && compiled(self.routes@[i].path@, self.routes@[i].segments@)
                && self.routes@[i].handler.wf()
        &&& forall|i: int, j: int|
            0 <= i < j < self.routes@.len() ==> (#[trigger] self.routes@[i]).path@ != (
            #[trigger] self.routes@[j]).path@
    }

    pub fn new() -> (r: HttpRouter)
        ensures
            r.wf(),
            r.routes@.len() == 0,
    {
        HttpRouter { routes: Vec::new() }
    }

    /// Registers `handler` for the endpoint `config` under template `path`.
    /// The template must be well formed, and the endpoint's protocol must be
    /// able to reach every backend of the endpoint and of the handler. A
    /// template registered before keeps its place and gets the new route.
    pub fn add_route(&mut self, path: &str, config: EndpointConfig, handler: HttpClient) -> (r:
        Result<(), RegistrationError>)
        requires
            old(self).wf(),
            handler.wf(),
        ensures
            final(self).wf(),
            r.is_ok() == (valid_template(path@) && all_compatible(config.protocol, config.backend@)
                && all_compatible(config.protocol, handler.backends@)),
            r matches Err(e) ==> e == (if !valid_template(path@) {
                RegistrationError::InvalidTemplate
            } else {
                RegistrationError::IncompatibleBackend
            }),
            r is Err ==> final(self).routes@ == old(self).routes@,
            r is Ok ==> final(self).routes@.len() >= old(self).routes@.len() && (forall|k: int|
                0 <= k < old(self).routes@.len() ==> (#[trigger] final(self).routes@[k]).path@
                    == old(self).routes@[k].path@) && (exists|k: int|
                0 <= k < final(self).routes@.len() && (#[trigger] final(self).routes@[k]).path@
                    == path@) && (exists|k: int|
                0 <= k < final(self).routes@.len() && route_for(
                    #[trigger] final(self).routes@[k],
                    path@,
                    config,
                    handler,
                )),
            r is Ok ==> forall|i: int|
                0 <= i < old(self).routes@.len() && (#[trigger] old(self).routes@[i]).path@
                    == path@ ==> {
                    &&& final(self).routes@.len() == old(self).routes@.len()
                    &&& route_for(final(self).routes@[i], path@, config, handler)
                    &&& forall|j: int|
                        0 <= j < old(self).routes@.len() && j != i ==> #[trigger] final(self).routes@[j]
                            == old(self).routes@[j]
                },
            r is Ok && (forall|i: int|
                0 <= i < old(self).routes@.len() ==> (#[trigger] old(self).routes@[i]).path@
                    != path@) ==> {
                &&& final(self).routes@.len() == old(self).routes@.len() + 1
                &&& final(self).routes@.drop_last() == old(self).routes@
                &&& route_for(final(self).routes@.last(), path@, config, handler)
            },
    {
        let segments = compile_template(path)?;
        if !backends_compatible(config.protocol, &config.backend) || !backends_compatible(
            config.protocol,
            &handler.backends,
        ) {
            return Err(RegistrationError::IncompatibleBackend);
        }
        let pattern = regex_source(&segments);
        let key = chars_of(path);
        let route = Route { path: crate::text::owned(path), segments, pattern, config, handler };
        let mut i: usize = 0;
        while i < self.routes.len()
            invariant
                old(self).wf(),
                valid_template(path@),
                all_compatible(config.protocol, config.backend@),
                all_compatible(config.protocol, handler.backends@),
                route_for(route, path@, config, handler),
                handler.wf(),
                self.routes@ == old(self).routes@,
                i <= self.routes@.len(),
                forall|j: int| 0 <= j < i ==> (#[trigger] self.routes@[j]).path@ != path@,
            decreases self.routes@.len() - i,
        {
            if same_text(self.routes[i].path.as_str(), path) {
                let ghost before = self.routes@;
                let ghost nr = route;
                self.routes.set(i, route);
                proof {
                    assert(self.routes@ == before.update(i as int, nr));
                    assert(nr.path@ == path@);
                    assert(before[i as int].path@ == path@);
                    assert(self.routes@[i as int].path@ == path@);
                    assert forall|a: int, b: int|
                        0 <= a < b < self.routes@.len() implies (#[trigger] self.routes@[a]).path@
                        != (#[trigger] self.routes@[b]).path@ by {
                        assert(before[a].path@ != before[b].path@);
                    }
                    assert forall|k: int|
                        0 <= k < before.len() && (#[trigger] before[k]).path@ == path@ implies k
                        == i by {
                        if k != i {
                            if k < i {
                                assert(before[k].path@ != before[i as int].path@);
                            } else {
                                assert(before[i as int].path@ != before[k].path@);
                            }
                        }
                    }
                }
                return Ok(());
            }
            i = i + 1;
        }
        let ghost before = self.routes@;
        let ghost nr = route;
        self.routes.push(route);
        proof {
            assert(self.routes@.drop_last() =~= before);
            assert(self.routes@.last() == nr);
            assert(nr.path@ == path@);
            assert(self.routes@[self.routes@.len() - 1].path@ == path@);
        }
        Ok(())
    }

    /// Resolves a path: normalizes it, then finds the first route whose
    /// template matches, with the parameters bound.
    pub fn match_route(&self, path: &str) -> (r: Option<(usize, Vec<(String, String)>)>)
        ensures
            resolution(self.routes@, normalized(path@), found_view(r)),
    {
        let np = normalize_path(path);
        let cs = chars_of(np.as_str());
        let mut i: usize = 0;
        while i < self.routes.len()
            invariant
                cs@ == normalized(path@),
                i <= self.routes@.len(),
                forall|j: int| 0 <= j < i ==> !route_matches(#[trigger] self.routes@[j], cs@),
            decreases self.routes@.len() - i,
        {
            match match_segments(&self.routes[i].segments, &cs) {
                Some(params) => {
                    return Some((i, params));
                },
                None => {},
            }
            i = i + 1;
        }
        None
    }

    /// The registered routes, in registration order.
    pub fn routes(&self) -> (r: &Vec<Route>)
        ensures
            r@ == self.routes@,
    {
        &self.routes
    }
}

/// `r` is how a request on protocol family `g` (none when the tag named no
/// family) for `path` resolves in `reg`.
pub open spec fn registry_resolution(
    reg: RouterRegistry,
    g: Option<GatewayProtocol>,
    path: Seq<char>,
    r: Result<(GatewayProtocol, usize, Vec<(String, String)>), RoutingError>,
) -> bool {
    match g {
        None => r == Err::<(GatewayProtocol, usize, Vec<(String, String)>), RoutingError>(
            RoutingError::ProtocolMismatch,
        ),
        Some(p) => {
            let routes = reg.router_of(p).routes@;
            if routes.len() == 0 {
                r == Err::<(GatewayProtocol, usize, Vec<(String, String)>), RoutingError>(
                    RoutingError::ProtocolMismatch,
                )
            } else {
                match r {
                    Ok((q, i, ps)) => q == p && resolution(
                        routes,
                        normalized(path),
                        Some((i, pairs_view(ps@))),
                    ),
                    Err(e) => e == RoutingError::NotFound && resolution(routes, normalized(path), None),
                }
            }
        },
    }
}

/// Resolution binds written values: when route `i` of protocol family `g` was
/// compiled from a valid template, a normalized path written from that
/// template (a non-empty word in the place of each named segment) that no
/// earlier route matches resolves to route `i`, with each name bound to the
/// word written in its place.
pub proof fn lemma_resolve_binds_written_values(
    reg: RouterRegistry,
    g: GatewayProtocol,
    i: int,
    t: Seq<char>,
    vals: Seq<Seq<char>>,
    r: Result<(GatewayProtocol, usize, Vec<(String, String)>), RoutingError>,
)
    requires
        0 <= i < reg.router_of(g).routes@.len(),
        valid_template(t),
        compiled(t, reg.router_of(g).routes@[i].segments@),
        fits_params(reg.router_of(g).routes@[i].segments@, vals),
        normalized(fill_from(reg.router_of(g).routes@[i].segments@, 0, vals)) == fill_from(
            reg.router_of(g).routes@[i].segments@,
            0,
            vals,
        ),
        forall|j: int|
            0 <= j < i ==> !route_matches(
                #[trigger] reg.router_of(g).routes@[j],
                fill_from(reg.router_of(g).routes@[i].segments@, 0, vals),
            ),
        registry_resolution(
            reg,
            Some(g),
            fill_from(reg.router_of(g).routes@[i].segments@, 0, vals),
            r,
        ),
    ensures
        r matches Ok((q, k, ps)) && q == g && k == i && pairs_view(ps@) == named_from(
            reg.router_of(g).routes@[i].segments@,
            0,
            vals,
        ),
{
    let routes = reg.router_of(g).routes@;
    let segs = routes[i].segments@;
    let p = fill_from(segs, 0, vals);
    lemma_match_binds_written_values(t, segs, vals);
    assert(route_matches(routes[i], p));
    match r {
        Ok((q, k, ps)) => {
            if (k as int) < i {
                assert(!route_matches(routes[k as int], p));
            }
            if (k as int) > i {
                assert(!route_matches(routes[i], p));
            }
        },
        Err(e) => {
            assert(!route_matches(routes[i], p));
        },
    }
}

/// One router per protocol family.
#[derive(Debug)]
pub struct RouterRegistry {
    pub rest: HttpRouter,
    pub websocket: HttpRouter,
}

impl RouterRegistry {
    pub open spec fn router_of(&self, g: GatewayProtocol) -> HttpRouter {
        match g {
            GatewayProtocol::Rest => self.rest,
            GatewayProtocol::WebSocket => self.websocket,
        }
    }

    pub open spec fn wf(&self) -> bool {
        self.rest.wf() && self.websocket.wf()
    }

    pub fn new() -> (r: RouterRegistry)
        ensures
            r.wf(),
            r.rest.routes@.len() == 0,
            r.websocket.routes@.len() == 0,
    {
        RouterRegistry { rest: HttpRouter::new(), websocket: HttpRouter::new() }
    }

    /// Installs `router` for the protocol family `protocol`.
    pub fn register(&mut self, protocol: GatewayProtocol, router: HttpRouter)
        ensures
            final(self).rest == if protocol == GatewayProtocol::Rest {
                router
            } else {
                old(self).rest
            },
            final(self).websocket == if protocol == GatewayProtocol::WebSocket {
                router
            } else {
                old(self).websocket
            },
    {
        match protocol {
            GatewayProtocol::Rest => self.rest = router,
            GatewayProtocol::WebSocket => self.websocket = router,
        }
    }

    /// The router of a protocol family, to register routes or dispatch on.
    pub fn router_mut(&mut self, protocol: GatewayProtocol) -> (r: &mut HttpRouter)
        ensures
            *r == old(self).router_of(protocol),
            final(self).rest == if protocol == GatewayProtocol::Rest {
                *final(r)
            } else {
                old(self).rest
            },
            final(self).websocket == if protocol == GatewayProtocol::WebSocket {
                *final(r)
            } else {
                old(self).websocket
            },
    {
        match protocol {
            GatewayProtocol::Rest => &mut self.rest,
            GatewayProtocol::WebSocket => &mut self.websocket,
        }
    }

    /// Resolves a request whose protocol tag is already lowercase.
    pub fn resolve_lowercase(&self, protocol: &str, path: &str) -> (r: Result<
        (GatewayProtocol, usize, Vec<(String, String)>),
        RoutingError,
    >)
        ensures
            registry_resolution(*self, protocol_named(protocol@), path@, r),
    {
        let g = match protocol_from_lowercase(protocol) {
            Some(g) => g,
            None => {
                return Err(RoutingError::ProtocolMismatch);
            },
        };
        let router = match g {
            GatewayProtocol::Rest => &self.rest,
            GatewayProtocol::WebSocket => &self.websocket,
        };
        if router.routes.len() == 0 {
            return Err(RoutingError::ProtocolMismatch);
        }
        match router.match_route(path) {
            Some((i, params)) => Ok((g, i, params)),
            None => Err(RoutingError::NotFound),
        }
    }

    /// Resolves a request: its protocol tag, in any letter case, picks the
    /// router; the router picks the route.
    pub fn route(&self, protocol: &str, path: &str) -> (r: Result<
        (GatewayProtocol, usize, Vec<(String, String)>),
        RoutingError,
    >)
        ensures
            registry_resolution(*self, protocol_named(lower_of(protocol@)), path@, r),
    {
        let lower = lowercase(protocol);
        self.resolve_lowercase(lower.as_str(), path)
    }
}

impl HttpRouter {
    /// The dispatcher of route `i`.
    pub fn handler_mut(&mut self, i: usize) -> (h: &mut HttpClient)
        requires
            i < old(self).routes@.len(),
        ensures
            *h == old(self).routes@[i as int].handler,
            final(self).routes@ == old(self).routes@.update(
                i as int,
                Route { handler: *final(h), ..old(self).routes@[i as int] },
            ),
    {
        &mut self.routes[i].handler
    }
}

} // verus!

verus! {

/// The HTTP side of a gateway: its router and its middleware pipeline.
#[derive(Debug)]
pub struct HttpProtocol {
    pub router: HttpRouter,
    pub middleware: crate::middleware::MiddlewareChain,
}

impl HttpProtocol {
    pub fn new() -> (r: HttpProtocol)
        ensures
            r.router.wf(),
            r.router.routes@.len() == 0,
            r.middleware.middleware@.len() == 0,
    {
        HttpProtocol { router: HttpRouter::new(), middleware: crate::middleware::MiddlewareChain::new() }
    }

    /// Appends a stage to the pipeline.
    pub fn add_middleware(&mut self, middleware: crate::middleware::Middleware)
        ensures
            final(self).middleware.middleware@ == old(self).middleware.middleware@.push(middleware),
            final(self).router == old(self).router,
    {
        self.middleware.add(middleware);
    }

    pub fn router(&mut self) -> (r: &mut HttpRouter)
        ensures
            *r == old(self).router,
            final(self).router == *final(r),
            final(self).middleware == old(self).middleware,
    {
        &mut self.router
    }

    pub fn router_ref(&self) -> (r: &HttpRouter)
        ensures
            *r == self.router,
    {
        &self.router
    }

    pub fn middleware(&self) -> (r: &crate::middleware::MiddlewareChain)
        ensures
            *r == self.middleware,
    {
        &self.middleware
    }
}

} // verus!
