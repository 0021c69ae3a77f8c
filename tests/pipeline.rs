use rustopus::client::{Action, Outcome};
use rustopus::config::{
    BackendConfig, BackendProtocol, CircuitBreakerConfig, Config, EndpointConfig, GatewayProtocol,
};
use rustopus::context::HttpContext;
use rustopus::error::{
    status_code, DispatchError, Failure, GatewayError, MiddlewareError, RegistrationError,
    RoutingError,
};
use rustopus::gateway::Gateway;
use rustopus::message::{Request, Response};
use rustopus::metrics::Metrics;
use rustopus::middleware::{
    AuthMiddleware, LoggingMiddleware, MetricsMiddleware, Middleware, MiddlewareChain,
    RateLimitMiddleware,
};

fn request(path: &str, credential: Option<&str>) -> Request {
    Request {
        method: "GET".to_string(),
        path: path.to_string(),
        protocol: "rest".to_string(),
        credential: credential.map(|c| c.to_string()),
        body: vec![],
    }
}

fn metrics_counts(m: &Middleware) -> (u64, u64) {
    match m {
        Middleware::Metrics(x) => (x.requests.get_request_count(), x.responses.get_request_count()),
        _ => panic!("not a metrics stage"),
    }
}

#[test]
fn test_middleware_chain() {
    let mut chain = MiddlewareChain::new();
    chain.add(Middleware::Logging(LoggingMiddleware));
    chain.add(Middleware::Metrics(MetricsMiddleware::new()));
    chain.add(Middleware::Auth(AuthMiddleware::new("test-token".to_string())));
    chain.add(Middleware::RateLimit(RateLimitMiddleware::new(100, 10)));
    assert_eq!(chain.iter().len(), 4);
}

#[test]
fn failing_auth_stops_after_metrics_ran() {
    let mut chain = MiddlewareChain::new();
    chain.add(Middleware::Metrics(MetricsMiddleware::new()));
    chain.add(Middleware::Auth(AuthMiddleware::new("secret".to_string())));
    let mut ctx = HttpContext::new();
    let r = chain.run_pre(&request("/x", None), &mut ctx, 0);
    assert_eq!(r, Err((1, MiddlewareError::Unauthorized)));
    assert_eq!(metrics_counts(&chain.iter()[0]), (1, 0));
    assert!(ctx.get("auth_token").is_none());
}

#[test]
fn passing_chain_runs_post_in_reverse() {
    let mut chain = MiddlewareChain::new();
    chain.add(Middleware::Metrics(MetricsMiddleware::new()));
    chain.add(Middleware::Auth(AuthMiddleware::new("secret".to_string())));
    let mut ctx = HttpContext::new();
    assert_eq!(chain.run_pre(&request("/x", Some("secret")), &mut ctx, 0), Ok(()));
    assert_eq!(ctx.get("auth_token").unwrap(), "secret");
    let resp = Response { status: 200, body: vec![] };
    assert_eq!(chain.run_post(&resp, &mut ctx), Ok(()));
    assert_eq!(metrics_counts(&chain.iter()[0]), (1, 1));
}

#[test]
fn wrong_credential_is_unauthorized() {
    let mut m = Middleware::Auth(AuthMiddleware::new("secret".to_string()));
    let mut ctx = HttpContext::new();
    assert_eq!(
        m.pre_process(&request("/x", Some("guess")), &mut ctx, 0),
        Err(MiddlewareError::Unauthorized)
    );
}

#[test]
fn rate_limit_admits_burst_then_refills() {
    let mut m = Middleware::RateLimit(RateLimitMiddleware::new(1, 2));
    let mut ctx = HttpContext::new();
    let req = request("/x", None);
    assert_eq!(m.pre_process(&req, &mut ctx, 0), Ok(()));
    assert_eq!(m.pre_process(&req, &mut ctx, 0), Ok(()));
    assert_eq!(m.pre_process(&req, &mut ctx, 500), Err(MiddlewareError::RateLimited));
    assert_eq!(m.pre_process(&req, &mut ctx, 1_000), Ok(()));
    assert_eq!(m.pre_process(&req, &mut ctx, 1_000), Err(MiddlewareError::RateLimited));
}

#[test]
fn metrics_counter_counts() {
    let mut m = Metrics::new();
    m.increment_request_count();
    m.increment_request_count();
    assert_eq!(m.get_request_count(), 2);
}

#[test]
fn context_later_value_wins() {
    let mut ctx = HttpContext::new();
    ctx.insert("k".to_string(), "1".to_string());
    ctx.insert("k".to_string(), "2".to_string());
    assert_eq!(ctx.get("k").unwrap(), "2");
    assert!(ctx.get("other").is_none());
}

fn backend(url: &str) -> BackendConfig {
    BackendConfig {
        url: url.to_string(),
        method: None,
        timeout: None,
        circuit_breaker: Some(CircuitBreakerConfig { threshold: 3, window: 60_000, min_requests: 3 }),
        retry: None,
        protocol: BackendProtocol::Rest,
    }
}

fn users_endpoint(backends: Vec<BackendConfig>) -> EndpointConfig {
    EndpointConfig {
        path: "/users/:id".to_string(),
        method: "GET".to_string(),
        backend: backends,
        timeout: None,
        cache_ttl: None,
        rate_limit: None,
        auth_required: false,
        protocol: GatewayProtocol::Rest,
        guards: vec![],
    }
}

#[test]
fn end_to_end_failover() {
    let mut config = Config::default();
    config.endpoints = vec![users_endpoint(vec![backend("http://a"), backend("http://b")])];
    let mut gw = Gateway::new("gw".to_string(), "1".to_string(), config).unwrap();
    assert_eq!(gw.start().unwrap(), vec![GatewayProtocol::Rest]);
    let mut adm = gw.begin_request(&request("/users/7", None), 100).unwrap();
    assert_eq!(adm.context.get("id").unwrap(), "7");
    let mut urls = Vec::new();
    loop {
        let h = gw.dispatcher(&adm);
        match h.next_action(&mut adm.session, 100) {
            Action::Call(plan) => {
                urls.push(plan.url.clone());
                let outcome = if plan.url == "http://a" {
                    Outcome::Failed(Failure::Timeout)
                } else {
                    Outcome::Success
                };
                if h.on_outcome(&mut adm.session, outcome, 100) {
                    break;
                }
            }
            _ => panic!("expected calls only"),
        }
    }
    assert_eq!(urls, vec!["http://a".to_string(), "http://b".to_string()]);
    let resp = Response { status: 200, body: b"{\"from\":\"b\"}".to_vec() };
    assert_eq!(gw.finish_request(&mut adm, &resp), Ok(()));
    let h = gw.dispatcher(&adm);
    assert_eq!(h.breakers[0].failure_count(), 1);
    assert_eq!(h.breakers[1].failure_count(), 0);
    assert_eq!(resp.body, b"{\"from\":\"b\"}".to_vec());
}

#[test]
fn gateway_stages_follow_fixed_order() {
    let mut config = Config::default();
    config.security.rate_limit.enabled = true;
    config.security.rate_limit.requests_per_second = 10;
    config.security.auth.enabled = true;
    config.security.auth.jwt_secret = Some("s3cret".to_string());
    config.observability.tracing.enabled = true;
    let mut gw = Gateway::new("gw".to_string(), "1".to_string(), config).unwrap();
    gw.start().unwrap();
    let kinds: Vec<&str> = gw
        .middleware_chain()
        .iter()
        .iter()
        .map(|m| match m {
            Middleware::Metrics(_) => "metrics",
            Middleware::Logging(_) => "tracing",
            Middleware::Auth(_) => "auth",
            Middleware::RateLimit(_) => "rate-limit",
        })
        .collect();
    assert_eq!(kinds, vec!["metrics", "tracing", "auth", "rate-limit"]);
}

#[test]
fn gateway_rejects_request_failing_auth_before_dispatch() {
    let mut config = Config::default();
    config.security.auth.enabled = true;
    config.security.auth.jwt_secret = Some("s3cret".to_string());
    config.endpoints = vec![users_endpoint(vec![backend("http://a")])];
    let mut gw = Gateway::new("gw".to_string(), "1".to_string(), config).unwrap();
    gw.start().unwrap();
    let r = gw.begin_request(&request("/users/1", None), 0);
    assert_eq!(r.unwrap_err(), GatewayError::Middleware(MiddlewareError::Unauthorized));
    assert_eq!(metrics_counts(&gw.middleware_chain().iter()[0]), (1, 0));
    let r = gw.begin_request(&request("/nowhere", Some("s3cret")), 0);
    assert_eq!(r.unwrap_err(), GatewayError::Routing(RoutingError::NotFound));
    let adm = gw.begin_request(&request("/users/1", Some("s3cret")), 0).unwrap();
    assert_eq!(adm.context.get("auth_token").unwrap(), "s3cret");
}

#[test]
fn gateway_start_rejects_incompatible_backend() {
    let mut config = Config::default();
    let mut ws = backend("ws://chat");
    ws.protocol = BackendProtocol::WebSocket;
    config.endpoints = vec![users_endpoint(vec![ws])];
    let mut gw = Gateway::new("gw".to_string(), "1".to_string(), config).unwrap();
    assert_eq!(gw.start().unwrap_err(), RegistrationError::IncompatibleBackend);
}

#[test]
fn gateway_without_endpoints_needs_no_listener() {
    let mut gw = Gateway::new("gw".to_string(), "0.1".to_string(), Config::default()).unwrap();
    assert_eq!(gw.name(), "gw");
    assert_eq!(gw.version(), "0.1");
    assert!(gw.start().unwrap().is_empty());
}

#[test]
fn errors_map_to_status_codes() {
    assert_eq!(status_code(GatewayError::Routing(RoutingError::NotFound)), 404);
    assert_eq!(status_code(GatewayError::Routing(RoutingError::ProtocolMismatch)), 404);
    assert_eq!(status_code(GatewayError::Routing(RoutingError::MethodNotAllowed)), 405);
    assert_eq!(status_code(GatewayError::Middleware(MiddlewareError::Unauthorized)), 401);
    assert_eq!(status_code(GatewayError::Middleware(MiddlewareError::RateLimited)), 429);
    assert_eq!(
        status_code(GatewayError::Dispatch(DispatchError::AllBackendsExhausted(Failure::Timeout))),
        502
    );
}

#[test]
fn each_endpoint_gets_a_fresh_dispatcher_over_its_backends() {
    let mut config = Config::default();
    let mut other = users_endpoint(vec![backend("http://c")]);
    other.path = "/orders/:id".to_string();
    config.endpoints = vec![users_endpoint(vec![backend("http://a"), backend("http://b")]), other];
    let mut gw = Gateway::new("gw".to_string(), "1".to_string(), config).unwrap();
    gw.start().unwrap();
    let routes = gw.router_registry().rest.routes();
    assert_eq!(routes.len(), 2);
    let urls: Vec<&str> = routes[0].handler.backends.iter().map(|b| b.url.as_str()).collect();
    assert_eq!(urls, vec!["http://a", "http://b"]);
    assert_eq!(routes[0].handler.cursor, 0);
    assert_eq!(routes[1].config.path, "/orders/:id");
}
