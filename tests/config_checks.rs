use rustopus::config::{
    default_backend_protocol, default_gateway_protocol, default_max_request_size, default_timeout,
    BackendConfig, BackendProtocol, CircuitBreakerConfig, Config, EndpointConfig, GatewayProtocol,
    RetryConfig,
};
use rustopus::error::ConfigError;
use rustopus::validator::{
    check_logging, validate_config, validate_endpoints_config, validate_logging_config,
    validate_metrics_config, validate_plugins_config, validate_security_config,
    validate_server_config,
};

fn backend() -> BackendConfig {
    BackendConfig {
        url: "http://svc".to_string(),
        method: None,
        timeout: None,
        circuit_breaker: None,
        retry: None,
        protocol: BackendProtocol::Rest,
    }
}

fn endpoint() -> EndpointConfig {
    EndpointConfig {
        path: "/svc".to_string(),
        method: "GET".to_string(),
        backend: vec![backend()],
        timeout: None,
        cache_ttl: None,
        rate_limit: None,
        auth_required: false,
        protocol: GatewayProtocol::Rest,
        guards: vec![],
    }
}

fn endpoint_error(f: impl Fn(&mut EndpointConfig)) -> ConfigError {
    let mut e = endpoint();
    f(&mut e);
    validate_endpoints_config(&vec![e]).unwrap_err()
}

#[test]
fn defaults() {
    assert_eq!(default_timeout(), 30_000);
    assert_eq!(default_max_request_size(), 10 * 1024 * 1024);
    assert_eq!(default_gateway_protocol(), GatewayProtocol::Rest);
    assert_eq!(default_backend_protocol(), BackendProtocol::Rest);
    let c = Config::default();
    assert!(c.server.workers >= 1);
    assert_eq!(c.server.port, 3000);
    assert_eq!(c.metrics.path, "/metrics");
    assert_eq!(validate_config(&c), Ok(()));
}

#[test]
fn server_errors() {
    let base = Config::default().server;
    let mut s = base.clone();
    s.port = 0;
    assert_eq!(validate_server_config(&s), Err(ConfigError::ServerPortZero));
    let mut s = base.clone();
    s.workers = 0;
    assert_eq!(validate_server_config(&s), Err(ConfigError::WorkersZero));
    let mut s = base.clone();
    s.timeout = 999;
    assert_eq!(validate_server_config(&s), Err(ConfigError::TimeoutTooShort));
    let mut s = base.clone();
    s.max_request_size = 0;
    assert_eq!(validate_server_config(&s), Err(ConfigError::MaxRequestSizeZero));
    assert_eq!(validate_server_config(&base), Ok(()));
}

#[test]
fn logging_errors() {
    let base = Config::default().logging;
    let mut l = base.clone();
    l.level = "WARN".to_string();
    l.format = "Text".to_string();
    assert_eq!(validate_logging_config(&l), Ok(()));
    l.level = "loud".to_string();
    assert_eq!(validate_logging_config(&l), Err(ConfigError::InvalidLogLevel));
    let mut l = base.clone();
    l.format = "xml".to_string();
    assert_eq!(validate_logging_config(&l), Err(ConfigError::InvalidLogFormat));
    let mut l = base.clone();
    l.file_output = Some(String::new());
    assert_eq!(validate_logging_config(&l), Err(ConfigError::EmptyLogFilePath));
    assert_eq!(check_logging("Info", "json", &None), Err(ConfigError::InvalidLogLevel));
}

#[test]
fn metrics_errors() {
    let base = Config::default().metrics;
    let mut m = base.clone();
    m.port = 0;
    assert_eq!(validate_metrics_config(&m), Err(ConfigError::MetricsPortZero));
    m.enabled = false;
    assert_eq!(validate_metrics_config(&m), Ok(()));
    let mut m = base.clone();
    m.path = String::new();
    assert_eq!(validate_metrics_config(&m), Err(ConfigError::EmptyMetricsPath));
    m.path = "metrics".to_string();
    assert_eq!(validate_metrics_config(&m), Err(ConfigError::MetricsPathNotAbsolute));
}

#[test]
fn security_and_plugin_errors() {
    let base = Config::default();
    let mut s = base.security.clone();
    s.cors.enabled = true;
    assert_eq!(validate_security_config(&s), Err(ConfigError::CorsOriginsEmpty));
    s.cors.allowed_origins = vec!["*".to_string()];
    assert_eq!(validate_security_config(&s), Err(ConfigError::CorsMethodsEmpty));
    let mut s = base.security.clone();
    s.rate_limit.enabled = true;
    assert_eq!(validate_security_config(&s), Err(ConfigError::RateLimitZero));
    let mut s = base.security.clone();
    s.auth.enabled = true;
    assert_eq!(validate_security_config(&s), Err(ConfigError::MissingJwtSecret));
    let mut p = base.plugins.clone();
    p.enabled = true;
    assert_eq!(validate_plugins_config(&p), Err(ConfigError::MissingPluginDirectory));
}

#[test]
fn endpoint_errors() {
    assert_eq!(endpoint_error(|e| e.path = String::new()), ConfigError::EmptyEndpointPath);
    assert_eq!(endpoint_error(|e| e.path = "svc".to_string()), ConfigError::EndpointPathNotAbsolute);
    assert_eq!(endpoint_error(|e| e.backend.clear()), ConfigError::NoBackends);
    assert_eq!(
        endpoint_error(|e| e.backend[0].protocol = BackendProtocol::WebSocket),
        ConfigError::RestToWebSocket
    );
    assert_eq!(
        endpoint_error(|e| e.protocol = GatewayProtocol::WebSocket),
        ConfigError::WebSocketToRest
    );
    assert_eq!(endpoint_error(|e| e.backend[0].url = String::new()), ConfigError::EmptyBackendUrl);
    assert_eq!(
        endpoint_error(|e| {
            e.backend[0].circuit_breaker =
                Some(CircuitBreakerConfig { threshold: 0, window: 1, min_requests: 1 })
        }),
        ConfigError::BreakerThresholdZero
    );
    assert_eq!(
        endpoint_error(|e| {
            e.backend[0].circuit_breaker =
                Some(CircuitBreakerConfig { threshold: 1, window: 1, min_requests: 0 })
        }),
        ConfigError::BreakerMinRequestsZero
    );
    assert_eq!(
        endpoint_error(|e| e.backend[0].retry = Some(RetryConfig { attempts: 0, backoff: 1 })),
        ConfigError::RetryAttemptsZero
    );
    assert_eq!(endpoint_error(|e| e.auth_required = true), ConfigError::AuthWithoutGuards);
    let mut ws = endpoint();
    ws.protocol = GatewayProtocol::WebSocket;
    ws.backend[0].protocol = BackendProtocol::Grpc;
    assert_eq!(validate_endpoints_config(&vec![endpoint(), ws]), Ok(()));
}

#[test]
fn first_problem_is_reported() {
    let mut c = Config::default();
    c.server.port = 0;
    c.logging.level = "loud".to_string();
    assert_eq!(validate_config(&c), Err(ConfigError::ServerPortZero));
    c.server.port = 1;
    assert_eq!(validate_config(&c), Err(ConfigError::InvalidLogLevel));
}
