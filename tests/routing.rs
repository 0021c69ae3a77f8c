use rustopus::client::HttpClient;
use rustopus::config::{BackendConfig, BackendProtocol, EndpointConfig, GatewayProtocol};
use rustopus::error::{RegistrationError, RoutingError};
use rustopus::router::{HttpRouter, RouterRegistry};
use rustopus::template::{compile_template, normalize_path, path_to_regex};

fn param<'a>(params: &'a [(String, String)], name: &str) -> Option<&'a String> {
    params.iter().find(|(k, _)| k == name).map(|(_, v)| v)
}

fn backend(url: &str, protocol: BackendProtocol) -> BackendConfig {
    BackendConfig {
        url: url.to_string(),
        method: Some("GET".to_string()),
        timeout: None,
        circuit_breaker: None,
        retry: None,
        protocol,
    }
}

fn endpoint(path: &str, protocol: GatewayProtocol, backends: Vec<BackendConfig>) -> EndpointConfig {
    EndpointConfig {
        path: path.to_string(),
        method: "GET".to_string(),
        backend: backends,
        timeout: None,
        cache_ttl: None,
        rate_limit: None,
        auth_required: false,
        protocol,
        guards: vec![],
    }
}

fn router_with(paths: &[&str]) -> HttpRouter {
    let mut router = HttpRouter::new();
    for p in paths {
        let b = backend("http://svc:8080", BackendProtocol::Rest);
        let config = endpoint(p, GatewayProtocol::Rest, vec![b.clone()]);
        router.add_route(p, config, HttpClient::new(vec![b]).unwrap()).unwrap();
    }
    router
}

#[test]
fn test_path_normalization() {
    assert_eq!(normalize_path("/api/v1/users"), "/api/users");
    assert_eq!(normalize_path("/api/v1/users/"), "/api/users");
    assert_eq!(normalize_path("/api/users"), "/api/users");
    assert_eq!(normalize_path("/health"), "/health");
}

#[test]
fn test_path_to_regex() {
    let cases = vec![
        ("/users", "^/users/?$"),
        ("/users/:id", "^/users/(?P<id>\\w+)/?$"),
        ("/users/:id/posts", "^/users/(?P<id>\\w+)/posts/?$"),
        ("/users/*", "^/users/.*/?$"),
    ];

    for (path, expected) in cases {
        let regex = path_to_regex(path).unwrap();
        assert_eq!(regex.as_str(), expected);
    }
}

#[test]
fn test_route_matching() {
    let mut router = HttpRouter::new();
    let config = EndpointConfig {
        path: "/api/users/:id".to_string(),
        method: "GET".to_string(),
        backend: vec![BackendConfig {
            url: "http://users-service:8080/users".to_string(),
            method: Some("GET".to_string()),
            timeout: None,
            circuit_breaker: None,
            retry: None,
            protocol: BackendProtocol::Rest,
        }],
        timeout: None,
        cache_ttl: None,
        rate_limit: None,
        auth_required: false,
        protocol: GatewayProtocol::Rest,
        guards: vec![],
    };

    router
        .add_route(
            "/api/users/:id",
            config.clone(),
            HttpClient::new(vec![config.backend[0].clone()]).unwrap(),
        )
        .unwrap();

    // Test v1 path
    let (_, params) = router.match_route("/api/v1/users/123").unwrap();
    assert_eq!(param(&params, "id").unwrap(), "123");

    // Test direct path
    let (_, params) = router.match_route("/api/users/456").unwrap();
    assert_eq!(param(&params, "id").unwrap(), "456");
}

#[test]
fn named_segments_bind_their_literal_text() {
    let router = router_with(&["/users/:id/posts/:post_id"]);
    let (i, params) = router.match_route("/users/42/posts/abc_9").unwrap();
    assert_eq!(i, 0);
    assert_eq!(
        params,
        vec![
            ("id".to_string(), "42".to_string()),
            ("post_id".to_string(), "abc_9".to_string())
        ]
    );
}

#[test]
fn named_segment_needs_word_characters() {
    let router = router_with(&["/users/:id"]);
    assert!(router.match_route("/users/12-3").is_none());
    assert!(router.match_route("/users/").is_none());
    assert!(router.match_route("/users/1/2").is_none());
    assert!(router.match_route("/users/7/").is_some());
}

#[test]
fn wildcard_takes_the_rest() {
    let router = router_with(&["/static/*"]);
    let (_, params) = router.match_route("/static/css/site.css").unwrap();
    assert!(params.is_empty());
    assert!(router.match_route("/static").is_none());
}

#[test]
fn literal_must_match_whole_segment() {
    let router = router_with(&["/user"]);
    assert!(router.match_route("/users").is_none());
    assert!(router.match_route("/user").is_some());
}

#[test]
fn first_registered_route_wins() {
    let router = router_with(&["/users/active", "/users/:id"]);
    let (i, params) = router.match_route("/users/active").unwrap();
    assert_eq!(i, 0);
    assert!(params.is_empty());
    let (i, _) = router.match_route("/users/7").unwrap();
    assert_eq!(i, 1);

    let router = router_with(&["/users/:id", "/users/active"]);
    let (i, params) = router.match_route("/users/active").unwrap();
    assert_eq!(i, 0);
    assert_eq!(param(&params, "id").unwrap(), "active");
}

#[test]
fn reregistering_a_template_keeps_its_place() {
    let mut router = router_with(&["/a", "/b"]);
    let b = backend("http://other:1", BackendProtocol::Rest);
    let config = endpoint("/a", GatewayProtocol::Rest, vec![b.clone()]);
    router.add_route("/a", config, HttpClient::new(vec![b]).unwrap()).unwrap();
    assert_eq!(router.routes().len(), 2);
    assert_eq!(router.routes()[0].handler.backends[0].url, "http://other:1");
}

#[test]
fn normalization_is_idempotent_on_examples() {
    for p in ["/api/v1/users/", "/api/users", "/health//", "/", "", "/api/v1/x"] {
        let once = normalize_path(p);
        assert_eq!(normalize_path(&once), once);
    }
    assert_eq!(normalize_path("/api/v1/x"), normalize_path("/api/x"));
    assert_eq!(normalize_path("/api/v1/v1/x"), "/api/x");
    assert_eq!(normalize_path("/api/v1/v1/y"), normalize_path("/api/v1/y"));
    assert_eq!(normalize_path("/api/v1/v1/"), "/api/v1");
}

#[test]
fn malformed_templates_are_rejected() {
    assert_eq!(compile_template("users").unwrap_err(), RegistrationError::InvalidTemplate);
    assert_eq!(compile_template("/users/:").unwrap_err(), RegistrationError::InvalidTemplate);
    assert_eq!(compile_template("/users/:a-b").unwrap_err(), RegistrationError::InvalidTemplate);
    assert_eq!(compile_template("/*/users").unwrap_err(), RegistrationError::InvalidTemplate);
    assert_eq!(path_to_regex("/:a/:a").unwrap_err(), RegistrationError::InvalidTemplate);
    assert_eq!(path_to_regex("/:a/x/:a").unwrap_err(), RegistrationError::InvalidTemplate);
    assert_eq!(path_to_regex("/:1a").unwrap_err(), RegistrationError::InvalidTemplate);
    assert!(path_to_regex("/:a/:b/:a1").is_ok());
    assert!(path_to_regex("/x/x/:_id").is_ok());
    assert!(path_to_regex("").is_err());
}

#[test]
fn literal_text_is_escaped_in_the_pattern() {
    assert_eq!(path_to_regex("/a.b").unwrap(), "^/a\\.b/?$");
    assert_eq!(path_to_regex("/v-1/a+b").unwrap(), "^/v\\-1/a\\+b/?$");
}

#[test]
fn rest_endpoint_rejects_websocket_backend() {
    let mut router = HttpRouter::new();
    let ws = backend("ws://chat:9000", BackendProtocol::WebSocket);
    let config = endpoint("/chat", GatewayProtocol::Rest, vec![ws.clone()]);
    let r = router.add_route("/chat", config, HttpClient::new(vec![ws]).unwrap());
    assert_eq!(r, Err(RegistrationError::IncompatibleBackend));
    assert!(router.routes().is_empty());
}

#[test]
fn registry_resolves_by_protocol_tag() {
    let mut reg = RouterRegistry::new();
    reg.register(GatewayProtocol::Rest, router_with(&["/users/:id"]));
    let (g, i, params) = reg.route("REST", "/users/5").unwrap();
    assert_eq!(g, GatewayProtocol::Rest);
    assert_eq!(i, 0);
    assert_eq!(param(&params, "id").unwrap(), "5");
    assert_eq!(reg.route("rest", "/nothing").unwrap_err(), RoutingError::NotFound);
    assert_eq!(reg.route("websocket", "/users/5").unwrap_err(), RoutingError::ProtocolMismatch);
    assert_eq!(reg.route("smtp", "/users/5").unwrap_err(), RoutingError::ProtocolMismatch);
}

#[test]
fn protocol_names_ignore_case() {
    assert_eq!(GatewayProtocol::parse("WebSocket"), Ok(GatewayProtocol::WebSocket));
    assert_eq!("Rest".parse::<GatewayProtocol>(), Ok(GatewayProtocol::Rest));
    assert!(GatewayProtocol::parse("grpc").is_err());
}
