//! Assembles a gateway from its configuration: the middleware pipeline in
//! its fixed order (metrics, tracing, auth, rate limit; each only if enabled),
//! then one dispatcher and one route per endpoint.
use vstd::prelude::*;
use crate::client::{DispatchSession, HttpClient};
use crate::breaker::fresh;
use crate::config::{compatible, duplicate_backends, same_backend, same_endpoint, protocol_named, Config, EndpointConfig, GatewayProtocol};
use crate::context::HttpContext;
use crate::error::{GatewayError, MiddlewareError, RegistrationError};
use crate::message::{Request, Response};
use crate::middleware::{
    adds_of, post_next, pre_error, pre_next, pre_ok, AuthMiddleware, LoggingMiddleware, Middleware,
    MiddlewareChain, MetricsMiddleware, RateLimitMiddleware,
};
use crate::router::{all_compatible, registry_resolution, route_for, Route, RouterRegistry};
use crate::template::{pairs_view, valid_template};
use crate::text::{lower_of, owned};

verus! {

#[derive(Debug, Clone, Copy, PartialEq, Eq, Structural)]
pub enum StageKind {
    Logging,
    Metrics,
    Auth,
    RateLimit,
}

pub open spec fn kind_of(m: Middleware) -> StageKind {
    match m {
        Middleware::Logging(_) => StageKind::Logging,
        Middleware::Metrics(_) => StageKind::Metrics,
        Middleware::Auth(_) => StageKind::Auth,
        Middleware::RateLimit(_) => StageKind::RateLimit,
    }
}

pub open spec fn kinds(stages: Seq<Middleware>) -> Seq<StageKind> {
    stages.map_values(|m: Middleware| kind_of(m))
}

pub open spec fn when(on: bool, k: StageKind) -> Seq<StageKind> {
    if on {
        seq![k]
    } else {
        seq![]
    }
}

/// The stages a configuration asks for, in their fixed order.
pub open spec fn canonical_kinds(c: Config) -> Seq<StageKind> {
    when(c.metrics.enabled, StageKind::Metrics) + when(
        c.observability.tracing.enabled,
        StageKind::Logging,
    ) + when(c.security.auth.enabled, StageKind::Auth) + when(
        c.security.rate_limit.enabled,
        StageKind::RateLimit,
    )
}

/// A metrics stage that has counted nothing yet.
pub open spec fn fresh_metrics_stage() -> Middleware {
    Middleware::Metrics(
        MetricsMiddleware {
            requests: crate::metrics::Metrics { request_count: 0 },
            responses: crate::metrics::Metrics { request_count: 0 },
        },
    )
}

/// The token the auth stage checks: the configured secret, else `default-secret`.
pub open spec fn auth_token_of(c: Config) -> Seq<char> {
    match c.security.auth.jwt_secret {
        Some(s) => s@,
        None => "default-secret"@,
    }
}

/// Whether the endpoint can be registered.
pub open spec fn endpoint_registrable(e: EndpointConfig) -> bool {
    valid_template(e.path@) && e.backend@.len() > 0 && all_compatible(e.protocol, e.backend@)
}

pub open spec fn registration_error(e: EndpointConfig) -> RegistrationError {
    if e.backend@.len() == 0 {
        RegistrationError::NoBackends
    } else if !valid_template(e.path@) {
        RegistrationError::InvalidTemplate
    } else {
        RegistrationError::IncompatibleBackend
    }
}

/// The endpoint is served: its protocol's router has a route for its template.
pub open spec fn served(reg: RouterRegistry, e: EndpointConfig) -> bool {
    exists|k: int|
        0 <= k < reg.router_of(e.protocol).routes@.len() && (#[trigger] reg.router_of(e.protocol).routes@[k]).path@
            == e.path@
}

/// `r` is the route built for endpoint `e`: its template, a copy of its
/// settings, and a fresh dispatcher over copies of its backends, in order.
pub open spec fn route_serves(r: Route, e: EndpointConfig) -> bool {
    &&& r.path@ == e.path@
    &&& same_endpoint(r.config, e)
    &&& r.handler.backends@.len() == e.backend@.len()
    &&& forall|k: int|
        0 <= k < e.backend@.len() ==> same_backend(#[trigger] r.handler.backends@[k], e.backend@[k])
    &&& r.handler.cursor == 0
    &&& r.handler.retry == e.backend@[0].retry
    &&& forall|k: int|
        0 <= k < e.backend@.len() ==> fresh(
            #[trigger] r.handler.breakers@[k]@,
            e.backend@[k].circuit_breaker,
        )
}

/// Endpoint `e` has its own route in `reg`.
pub open spec fn served_by_own_route(reg: RouterRegistry, e: EndpointConfig) -> bool {
    exists|k: int|
        0 <= k < reg.router_of(e.protocol).routes@.len() && route_serves(
            #[trigger] reg.router_of(e.protocol).routes@[k],
            e,
        )
}

/// Two endpoints share a protocol family and a template.
pub open spec fn same_key(a: EndpointConfig, b: EndpointConfig) -> bool {
    a.protocol == b.protocol && a.path@ == b.path@
}

/// No endpoint after `j`, up to `upto`, shares its protocol and template:
/// endpoint `j` is the one whose route the router keeps.
pub open spec fn last_of_key(es: Seq<EndpointConfig>, j: int, upto: int) -> bool {
    forall|m: int| j < m < upto ==> !same_key(es[j], #[trigger] es[m])
}

/// The first endpoint that cannot be registered decides the error.
pub open spec fn first_unregistrable(es: Seq<EndpointConfig>) -> Option<RegistrationError>
    decreases es.len(),
{
    if es.len() == 0 {
        None
    } else if !endpoint_registrable(es[0]) {
        Some(registration_error(es[0]))
    } else {
        first_unregistrable(es.drop_first())
    }
}

/// The protocol families that need a listener: those with a route.
pub open spec fn listeners(reg: RouterRegistry) -> Seq<GatewayProtocol> {
    (if reg.rest.routes@.len() > 0 {
        seq![GatewayProtocol::Rest]
    } else {
        seq![]
    }) + (if reg.websocket.routes@.len() > 0 {
        seq![GatewayProtocol::WebSocket]
    } else {
        seq![]
    })
}

/// A request that passed routing and every `pre_process` stage, with its
/// dispatch session under way.
#[derive(Debug)]
pub struct Admission {
    pub protocol: GatewayProtocol,
    pub route: usize,
    pub context: HttpContext,
    pub session: DispatchSession,
}

#[derive(Debug)]
pub struct Gateway {
    pub name: String,
    pub version: String,
    pub config: Config,
    pub routers: RouterRegistry,
    pub middleware: MiddlewareChain,
}

impl Gateway {
    pub open spec fn wf(&self) -> bool {
        self.routers.wf()
    }

    /// A gateway with no stages and no routes yet.
    pub fn new(name: String, version: String, config: Config) -> (r: Result<Gateway, RegistrationError>)
        ensures
            r matches Ok(g) && g.wf() && g.name == name && g.version == version && g.config
                == config && g.middleware.middleware@.len() == 0
                && g.routers.rest.routes@.len() == 0 && g.routers.websocket.routes@.len() == 0,
    {
        Ok(
            Gateway {
                name,
                version,
                config,
                routers: RouterRegistry::new(),
                middleware: MiddlewareChain::new(),
            },
        )
    }

    pub fn name(&self) -> (r: &str)
        ensures
            r@ == self.name@,
    {
        self.name.as_str()
    }

    pub fn version(&self) -> (r: &str)
        ensures
            r@ == self.version@,
    {
        self.version.as_str()
    }

    pub fn config(&self) -> (r: &Config)
        ensures
            *r == self.config,
    {
        &self.config
    }

    pub fn router_registry(&self) -> (r: &RouterRegistry)
        ensures
            *r == self.routers,
    {
        &self.routers
    }

    pub fn middleware_chain(&self) -> (r: &MiddlewareChain)
        ensures
            *r == self.middleware,
    {
        &self.middleware
    }

    pub fn create_metrics_middleware(&self) -> (r: Middleware)
        ensures
            r == fresh_metrics_stage(),
    {
        Middleware::Metrics(MetricsMiddleware::new())
    }

    pub fn create_tracing_middleware(&self) -> (r: Middleware)
        ensures
            r == Middleware::Logging(LoggingMiddleware),
    {
        Middleware::Logging(LoggingMiddleware)
    }

    pub fn create_auth_middleware(&self) -> (r: Middleware)
        ensures
            r matches Middleware::Auth(a) && a.auth_token@ == auth_token_of(self.config),
    {
        let token = match &self.config.security.auth.jwt_secret {
            Some(s) => s.clone(),
            None => owned("default-secret"),
        };
        Middleware::Auth(AuthMiddleware::new(token))
    }

    pub fn create_rate_limit_middleware(&self) -> (r: Middleware)
        ensures
            r matches Middleware::RateLimit(b) && b == RateLimitMiddleware::new_spec(
                self.config.security.rate_limit.requests_per_second,
                self.config.security.rate_limit.burst,
            ),
    {
        let c = self.config.security.rate_limit;
        Middleware::RateLimit(RateLimitMiddleware::new(c.requests_per_second, c.burst))
    }

    /// Adds the metrics stage, then the tracing stage, each if enabled.
    pub fn init_telemetry(&mut self)
        ensures
            kinds(final(self).middleware.middleware@) == kinds(old(self).middleware.middleware@)
                + when(old(self).config.metrics.enabled, StageKind::Metrics) + when(
                old(self).config.observability.tracing.enabled,
                StageKind::Logging,
            ),
            final(self).middleware.middleware@ == old(self).middleware.middleware@ + (if old(
                self,
            ).config.metrics.enabled {
                seq![fresh_metrics_stage()]
            } else {
                seq![]
            }) + (if old(self).config.observability.tracing.enabled {
                seq![Middleware::Logging(LoggingMiddleware)]
            } else {
                seq![]
            }),
            final(self).config == old(self).config,
            final(self).routers == old(self).routers,
    {
        let ghost s0 = self.middleware.middleware@;
        let ghost k0 = kinds(self.middleware.middleware@);
        if self.config.metrics.enabled {
            let m = self.create_metrics_middleware();
            self.middleware.add(m);
        }
        assert(kinds(self.middleware.middleware@) =~= k0 + when(
            self.config.metrics.enabled,
            StageKind::Metrics,
        ));
        let ghost k1 = kinds(self.middleware.middleware@);
        if self.config.observability.tracing.enabled {
            let m = self.create_tracing_middleware();
            self.middleware.add(m);
        }
        assert(kinds(self.middleware.middleware@) =~= k1 + when(
            self.config.observability.tracing.enabled,
            StageKind::Logging,
        ));
        assert(self.middleware.middleware@ =~= s0 + (if self.config.metrics.enabled {
            seq![fresh_metrics_stage()]
        } else {
            seq![]
        }) + (if self.config.observability.tracing.enabled {
            seq![Middleware::Logging(LoggingMiddleware)]
        } else {
            seq![]
        }));
    }

    /// Builds one dispatcher per endpoint, over copies of its backends, and
    /// registers it under the endpoint's template with its protocol's router.
    pub fn init_protocols(&mut self) -> (r: Result<(), RegistrationError>)
        requires
            old(self).wf(),
        ensures
            final(self).wf(),
            final(self).config == old(self).config,
            final(self).middleware == old(self).middleware,
            r == match first_unregistrable(old(self).config.endpoints@) {
                Some(e) => Err::<(), RegistrationError>(e),
                None => Ok(()),
            },
            r is Ok ==> forall|i: int|
                0 <= i < old(self).config.endpoints@.len() ==> served(
                    final(self).routers,
                    #[trigger] old(self).config.endpoints@[i],
                ),
            r is Ok ==> forall|i: int|
                0 <= i < old(self).config.endpoints@.len() && last_of_key(
                    old(self).config.endpoints@,
                    i,
                    old(self).config.endpoints@.len() as int,
                ) ==> served_by_own_route(
                    final(self).routers,
                    #[trigger] old(self).config.endpoints@[i],
                ),
    {
        let ghost es = self.config.endpoints@;
        let mut i: usize = 0;
        assert(es.subrange(0, es.len() as int) =~= es);
        while i < self.config.endpoints.len()
            invariant
                self.wf(),
                es == old(self).config.endpoints@,
                self.config == old(self).config,
                self.middleware == old(self).middleware,
                i <= es.len(),
                first_unregistrable(es) == first_unregistrable(es.subrange(i as int, es.len() as int)),
                forall|j: int| 0 <= j < i ==> served(self.routers, #[trigger] es[j]),
                forall|j: int|
                    0 <= j < i && last_of_key(es, j, i as int) ==> served_by_own_route(
                        self.routers,
                        #[trigger] es[j],
                    ),
            decreases es.len() - i,
        {
            let ghost rest = es.subrange(i as int, es.len() as int);
            assert(rest[0] == es[i as int]);
            assert(rest.drop_first() =~= es.subrange(i + 1, es.len() as int));
            let e = &self.config.endpoints[i];
            let backends = duplicate_backends(&e.backend);
            let ghost bdup = backends@;
            let client = match HttpClient::new(backends) {
                Ok(c) => c,
                Err(err) => {
                    return Err(err);
                },
            };
            let cfg = e.duplicate();
            assert forall|k: int| 0 <= k < cfg.backend@.len() implies (#[trigger] cfg.backend@[k]).protocol
                == e.backend@[k].protocol by {
                assert(crate::config::same_backend(cfg.backend@[k], e.backend@[k]));
            }
            proof {
                let g = e.protocol;
                if all_compatible(g, e.backend@) {
                    assert forall|k: int| 0 <= k < cfg.backend@.len() implies compatible(
                        g,
                        #[trigger] cfg.backend@[k].protocol,
                    ) by {
                        assert(compatible(g, e.backend@[k].protocol));
                    }
                    assert forall|k: int| 0 <= k < client.backends@.len() implies compatible(
                        g,
                        #[trigger] client.backends@[k].protocol,
                    ) by {
                        assert(crate::config::same_backend(client.backends@[k], e.backend@[k]));
                        assert(compatible(g, e.backend@[k].protocol));
                    }
                }
                if all_compatible(g, cfg.backend@) && all_compatible(g, client.backends@) {
                    assert forall|k: int| 0 <= k < e.backend@.len() implies compatible(
                        g,
                        #[trigger] e.backend@[k].protocol,
                    ) by {
                        assert(compatible(g, cfg.backend@[k].protocol));
                    }
                }
            }
            let ghost reg0 = self.routers;
            let ghost gcfg = cfg;
            let ghost gclient = client;
            let p = e.protocol;
            let router = self.routers.router_mut(p);
            let res = router.add_route(self.config.endpoints[i].path.as_str(), cfg, client);
            assert(self.routers.wf());
            match res {
                Ok(_) => {},
                Err(err) => {
                    return Err(err);
                },
            }
            proof {
                assert forall|j: int| 0 <= j < i + 1 implies served(self.routers, #[trigger] es[j]) by {
                    if j < i {
                        let q = es[j].protocol;
                        let k = choose|k: int|
                            0 <= k < reg0.router_of(q).routes@.len() && (#[trigger] reg0.router_of(
                                q,
                            ).routes@[k]).path@ == es[j].path@;
                        assert(self.routers.router_of(q).routes@[k].path@ == es[j].path@);
                    }
                }
                let ei = es[i as int];
                let old_routes = reg0.router_of(p).routes@;
                let new_routes = self.routers.router_of(p).routes@;
                let k = choose|k: int|
                    0 <= k < new_routes.len() && route_for(
                        #[trigger] new_routes[k],
                        ei.path@,
                        gcfg,
                        gclient,
                    );
                assert forall|x: int| 0 <= x < ei.backend@.len() implies same_backend(
                    #[trigger] new_routes[k].handler.backends@[x],
                    ei.backend@[x],
                ) by {
                    assert(new_routes[k].handler.backends@[x] == bdup[x]);
                }
                assert forall|x: int| 0 <= x < ei.backend@.len() implies fresh(
                    #[trigger] new_routes[k].handler.breakers@[x]@,
                    ei.backend@[x].circuit_breaker,
                ) by {
                    assert(same_backend(bdup[x], ei.backend@[x]));
                    assert(fresh(gclient.breakers@[x]@, bdup[x].circuit_breaker));
                }
                assert(same_backend(bdup[0], ei.backend@[0]));
                assert(route_serves(new_routes[k], ei));
                assert(served_by_own_route(self.routers, ei));
                assert forall|j: int|
                    0 <= j < i + 1 && last_of_key(es, j, i + 1) implies served_by_own_route(
                    self.routers,
                    #[trigger] es[j],
                ) by {
                    if j < i {
                        assert(last_of_key(es, j, i as int));
                        assert(!same_key(es[j], es[i as int]));
                        let q = es[j].protocol;
                        let kk = choose|kk: int|
                            0 <= kk < reg0.router_of(q).routes@.len() && route_serves(
                                #[trigger] reg0.router_of(q).routes@[kk],
                                es[j],
                            );
                        if q == p {
                            if exists|x: int|
                                0 <= x < old_routes.len() && (#[trigger] old_routes[x]).path@
                                    == ei.path@ {
                                let x = choose|x: int|
                                    0 <= x < old_routes.len() && (#[trigger] old_routes[x]).path@
                                        == ei.path@;
                                assert(kk != x);
                                assert(new_routes[kk] == old_routes[kk]);
                            } else {
                                assert(new_routes.drop_last() == old_routes);
                                assert(new_routes[kk] == new_routes.drop_last()[kk]);
                            }
                            assert(route_serves(new_routes[kk], es[j]));
                        } else {
                            assert(self.routers.router_of(q) == reg0.router_of(q));
                        }
                    }
                }
            }
            i = i + 1;
        }
        assert(es.subrange(i as int, es.len() as int).len() == 0);
        Ok(())
    }

    /// Assembles the gateway: the stages in their fixed order, then the
    /// routes. Returns the protocol families that need a listener.
    pub fn start(&mut self) -> (r: Result<Vec<GatewayProtocol>, RegistrationError>)
        requires
            old(self).wf(),
        ensures
            final(self).wf(),
            kinds(final(self).middleware.middleware@) == kinds(old(self).middleware.middleware@)
                + canonical_kinds(old(self).config),
            r.is_ok() == (first_unregistrable(old(self).config.endpoints@) is None),
            r matches Err(e) ==> first_unregistrable(old(self).config.endpoints@) == Some(e),
            r matches Ok(ps) ==> ps@ == listeners(final(self).routers) && forall|i: int|
                0 <= i < old(self).config.endpoints@.len() ==> served(
                    final(self).routers,
                    #[trigger] old(self).config.endpoints@[i],
                ),
            r is Ok ==> forall|i: int|
                0 <= i < old(self).config.endpoints@.len() && last_of_key(
                    old(self).config.endpoints@,
                    i,
                    old(self).config.endpoints@.len() as int,
                ) ==> served_by_own_route(
                    final(self).routers,
                    #[trigger] old(self).config.endpoints@[i],
                ),
    {
        let ghost k0 = kinds(self.middleware.middleware@);
        self.init_telemetry();
        self.init_security();
        assert(kinds(self.middleware.middleware@) =~= k0 + canonical_kinds(self.config));
        self.init_protocols()?;
        let mut out: Vec<GatewayProtocol> = Vec::new();
        if self.routers.rest.routes.len() > 0 {
            out.push(GatewayProtocol::Rest);
        }
        if self.routers.websocket.routes.len() > 0 {
            out.push(GatewayProtocol::WebSocket);
        }
        assert(out@ =~= listeners(self.routers));
        Ok(out)
    }

    /// Takes a request in: resolves its route, seeds the context with the
    /// path parameters, runs the `pre_process` stages in order, and starts
    /// the route's dispatch session. A routing or stage failure ends the
    /// request here: nothing is dispatched and no `post_process` runs.
    pub fn begin_request(&mut self, request: &Request, now: u64) -> (r: Result<Admission, GatewayError>)
        requires
            old(self).wf(),
        ensures
            final(self).wf(),
            final(self).config == old(self).config,
            r matches Err(GatewayError::Routing(e)) ==> {
                &&& registry_resolution(
                    old(self).routers,
                    protocol_named(lower_of(request.protocol@)),
                    request.path@,
                    Err(e),
                )
                &&& final(self).middleware == old(self).middleware
                &&& final(self).routers == old(self).routers
            },
            r matches Err(GatewayError::Middleware(e)) ==> {
                let s0 = old(self).middleware.middleware@;
                let s1 = final(self).middleware.middleware@;
                &&& final(self).routers == old(self).routers
                &&& exists|found: (GatewayProtocol, usize, Vec<(String, String)>)|
                    registry_resolution(
                        old(self).routers,
                        protocol_named(lower_of(request.protocol@)),
                        request.path@,
                        Ok(found),
                    )
                &&& s1.len() == s0.len()
                &&& exists|i: int|
                    0 <= i < s0.len() && !pre_ok(#[trigger] s0[i], *request, now) && e
                        == pre_error(s0[i]) && s1[i] == pre_next(s0[i], now) && (forall|j: int|
                        0 <= j < i ==> pre_ok(#[trigger] s0[j], *request, now) && s1[j]
                            == pre_next(s0[j], now)) && (forall|j: int|
                        i < j < s0.len() ==> #[trigger] s1[j] == s0[j])
            },
            !(r matches Err(GatewayError::Dispatch(_))),
            r matches Ok(a) ==> {
                let s0 = old(self).middleware.middleware@;
                let routes = old(self).routers.router_of(a.protocol).routes@;
                &&& a.route < routes.len()
                &&& forall|j: int| 0 <= j < s0.len() ==> pre_ok(#[trigger] s0[j], *request, now)
                &&& forall|j: int|
                    0 <= j < s0.len() ==> #[trigger] final(self).middleware.middleware@[j]
                        == pre_next(s0[j], now)
                &&& a.session.start == routes[a.route as int].handler.cursor
                &&& a.session.step == 0 && a.session.pass == 0 && a.session.in_flight is None
                &&& final(self).routers.router_of(a.protocol).routes@[a.route as int].handler.session_ok(
                    a.session,
                )
                &&& a.route < final(self).routers.router_of(a.protocol).routes@.len()
                &&& final(self).routers.router_of(a.protocol).routes@ == routes.update(
                    a.route as int,
                    Route {
                        handler: HttpClient {
                            cursor: ((routes[a.route as int].handler.cursor + 1) % (
                            routes[a.route as int].handler.backends@.len() as int)) as usize,
                            ..routes[a.route as int].handler
                        },
                        ..routes[a.route as int]
                    },
                )
                &&& a.protocol == GatewayProtocol::Rest ==> final(self).routers.websocket == old(
                    self,
                ).routers.websocket
                &&& a.protocol == GatewayProtocol::WebSocket ==> final(self).routers.rest == old(
                    self,
                ).routers.rest
                &&& exists|ps: Vec<(String, String)>|
                    registry_resolution(
                        old(self).routers,
                        protocol_named(lower_of(request.protocol@)),
                        request.path@,
                        Ok((a.protocol, a.route, ps)),
                    ) && a.context.view_entries() == pairs_view(ps@) + adds_of(s0)
            },
    {
        let (g, i, params) = match self.routers.route(request.protocol.as_str(), request.path.as_str()) {
            Ok(found) => found,
            Err(e) => {
                return Err(GatewayError::Routing(e));
            },
        };
        let mut context = HttpContext::new();
        let mut k: usize = 0;
        while k < params.len()
            invariant
                k <= params@.len(),
                context.view_entries() == pairs_view(params@.subrange(0, k as int)),
            decreases params@.len() - k,
        {
            context.insert(params[k].0.clone(), params[k].1.clone());
            assert(pairs_view(params@.subrange(0, k + 1)) =~= pairs_view(params@.subrange(0, k as int)).push(
                (params@[k as int].0@, params@[k as int].1@),
            ));
            k = k + 1;
        }
        assert(params@.subrange(0, params@.len() as int) =~= params@);
        let ghost s0 = self.middleware.middleware@;
        assert(registry_resolution(
            self.routers,
            protocol_named(lower_of(request.protocol@)),
            request.path@,
            Ok((g, i, params)),
        ));
        match self.middleware.run_pre(request, &mut context, now) {
            Ok(_) => {},
            Err((k, e)) => {
                assert(!pre_ok(s0[k as int], *request, now));
                return Err(GatewayError::Middleware(e));
            },
        }
        let router = self.routers.router_mut(g);
        let handler = router.handler_mut(i);
        let session = handler.begin();
        Ok(Admission { protocol: g, route: i, context, session })
    }

    /// The dispatcher of an admitted request's route.
    pub fn dispatcher(&mut self, a: &Admission) -> (h: &mut HttpClient)
        requires
            old(self).wf(),
            a.route < old(self).routers.router_of(a.protocol).routes@.len(),
        ensures
            *h == old(self).routers.router_of(a.protocol).routes@[a.route as int].handler,
            h.wf(),
            final(self).routers.router_of(a.protocol).routes@ == old(self).routers.router_of(
                a.protocol,
            ).routes@.update(
                a.route as int,
                Route {
                    handler: *final(h),
                    ..old(self).routers.router_of(a.protocol).routes@[a.route as int]
                },
            ),
            a.protocol == GatewayProtocol::Rest ==> final(self).routers.websocket == old(
                self,
            ).routers.websocket,
            a.protocol == GatewayProtocol::WebSocket ==> final(self).routers.rest == old(
                self,
            ).routers.rest,
            final(self).config == old(self).config,
            final(self).middleware == old(self).middleware,
    {
        let router = self.routers.router_mut(a.protocol);
        router.handler_mut(a.route)
    }

    /// Finishes a request whose backend answered: runs the `post_process`
    /// stages in reverse order.
    pub fn finish_request(&mut self, a: &mut Admission, response: &Response) -> (r: Result<
        (),
        MiddlewareError,
    >)
        ensures
            r.is_ok(),
            final(self).routers == old(self).routers,
            final(self).middleware.middleware@.len() == old(self).middleware.middleware@.len(),
            forall|j: int|
                0 <= j < old(self).middleware.middleware@.len() ==> #[trigger] final(self).middleware.middleware@[j]
                    == post_next(old(self).middleware.middleware@[j]),
    {
        self.middleware.run_post(response, &mut a.context)
    }

    /// Adds the auth stage, then the rate-limit stage, each if enabled.
    pub fn init_security(&mut self)
        ensures
            kinds(final(self).middleware.middleware@) == kinds(old(self).middleware.middleware@)
                + when(old(self).config.security.auth.enabled, StageKind::Auth) + when(
                old(self).config.security.rate_limit.enabled,
                StageKind::RateLimit,
            ),
            forall|i: int|
                old(self).middleware.middleware@.len() <= i < final(self).middleware.middleware@.len()
                    ==> match #[trigger] final(self).middleware.middleware@[i] {
                    Middleware::Auth(a) => a.auth_token@ == auth_token_of(old(self).config),
                    Middleware::RateLimit(b) => b == RateLimitMiddleware::new_spec(
                        old(self).config.security.rate_limit.requests_per_second,
                        old(self).config.security.rate_limit.burst,
                    ),
                    _ => false,
                },
            forall|i: int|
                0 <= i < old(self).middleware.middleware@.len() ==> #[trigger] final(self).middleware.middleware@[i]
                    == old(self).middleware.middleware@[i],
            final(self).config == old(self).config,
            final(self).routers == old(self).routers,
    {
        let ghost k0 = kinds(self.middleware.middleware@);
        let ghost s0 = self.middleware.middleware@;
        if self.config.security.auth.enabled {
            let m = self.create_auth_middleware();
            self.middleware.add(m);
        }
        assert(kinds(self.middleware.middleware@) =~= k0 + when(
            self.config.security.auth.enabled,
            StageKind::Auth,
        ));
        let ghost k1 = kinds(self.middleware.middleware@);
        if self.config.security.rate_limit.enabled {
            let m = self.create_rate_limit_middleware();
            self.middleware.add(m);
        }
        assert(kinds(self.middleware.middleware@) =~= k1 + when(
            self.config.security.rate_limit.enabled,
            StageKind::RateLimit,
        ));
    }
}

} // verus!
