//! Configuration checks made before the gateway starts. Each check reports
//! the first problem it finds, in a fixed order.
use vstd::prelude::*;
use crate::config::{
    BackendConfig, BackendProtocol, Config, EndpointConfig, GatewayProtocol, LoggingConfig,
    MetricsConfig, PluginsConfig, SecurityConfig, ServerConfig,
};
use crate::error::ConfigError;
use crate::text::{chars_of, lower_of, lowercase, same_text};

verus! {

pub open spec fn absolute(p: Seq<char>) -> bool {
    p.len() > 0 && p[0] == '/'
}

fn is_absolute(s: &str) -> (r: bool)
    ensures
        r == absolute(s@),
{
    let cs = chars_of(s);
    cs.len() > 0 && cs[0] == '/'
}

pub open spec fn server_verdict(c: ServerConfig) -> Result<(), ConfigError> {
    if c.port == 0 {
        Err(ConfigError::ServerPortZero)
    } else if c.workers == 0 {
        Err(ConfigError::WorkersZero)
    } else if c.timeout < 1000 {
        Err(ConfigError::TimeoutTooShort)
    } else if c.max_request_size == 0 {
        Err(ConfigError::MaxRequestSizeZero)
    } else {
        Ok(())
    }
}

/// The port and worker count are non-zero, the timeout is at least one
/// second, and the request size limit is non-zero.
pub fn validate_server_config(config: &ServerConfig) -> (r: Result<(), ConfigError>)
    ensures
        r == server_verdict(*config),
{
    if config.port == 0 {
        return Err(ConfigError::ServerPortZero);
    }
    if config.workers == 0 {
        return Err(ConfigError::WorkersZero);
    }
    if config.timeout < 1000 {
        return Err(ConfigError::TimeoutTooShort);
    }
    if config.max_request_size == 0 {
        return Err(ConfigError::MaxRequestSizeZero);
    }
    Ok(())
}

pub open spec fn level_known(s: Seq<char>) -> bool {
    s == seq!['t', 'r', 'a', 'c', 'e'] || s == seq!['d', 'e', 'b', 'u', 'g'] || s == seq![
        'i',
        'n',
        'f',
        'o',
    ] || s == seq!['w', 'a', 'r', 'n'] || s == seq!['e', 'r', 'r', 'o', 'r']
}

pub open spec fn format_known(s: Seq<char>) -> bool {
    s == seq!['j', 's', 'o', 'n'] || s == seq!['t', 'e', 'x', 't']
}

pub open spec fn logging_verdict(
    level: Seq<char>,
    format: Seq<char>,
    file_output: Option<String>,
) -> Result<(), ConfigError> {
    if !level_known(level) {
        Err(ConfigError::InvalidLogLevel)
    } else if !format_known(format) {
        Err(ConfigError::InvalidLogFormat)
    } else if file_output matches Some(f) && f@.len() == 0 {
        Err(ConfigError::EmptyLogFilePath)
    } else {
        Ok(())
    }
}

/// Checks logging settings whose level and format are already lowercase.
pub fn check_logging(level: &str, format: &str, file_output: &Option<String>) -> (r: Result<
    (),
    ConfigError,
>)
    ensures
        r == logging_verdict(level@, format@, *file_output),
{
    proof {
        reveal_strlit("trace");
        reveal_strlit("debug");
        reveal_strlit("info");
        reveal_strlit("warn");
        reveal_strlit("error");
        reveal_strlit("json");
        reveal_strlit("text");
        assert("trace"@ =~= seq!['t', 'r', 'a', 'c', 'e']);
        assert("debug"@ =~= seq!['d', 'e', 'b', 'u', 'g']);
        assert("info"@ =~= seq!['i', 'n', 'f', 'o']);
        assert("warn"@ =~= seq!['w', 'a', 'r', 'n']);
        assert("error"@ =~= seq!['e', 'r', 'r', 'o', 'r']);
        assert("json"@ =~= seq!['j', 's', 'o', 'n']);
        assert("text"@ =~= seq!['t', 'e', 'x', 't']);
    }
    let level_ok = same_text(level, "trace") || same_text(level, "debug") || same_text(level, "info")
        || same_text(level, "warn") || same_text(level, "error");
    if !level_ok {
        return Err(ConfigError::InvalidLogLevel);
    }
    if !(same_text(format, "json") || same_text(format, "text")) {
        return Err(ConfigError::InvalidLogFormat);
    }
    if let Some(f) = file_output {
        if chars_of(f.as_str()).len() == 0 {
            return Err(ConfigError::EmptyLogFilePath);
        }
    }
    Ok(())
}

/// The level is one of trace, debug, info, warn, error and the format one of
/// json, text, in any letter case; a log file path, if given, is not empty.
pub fn validate_logging_config(config: &LoggingConfig) -> (r: Result<(), ConfigError>)
    ensures
        r == logging_verdict(lower_of(config.level@), lower_of(config.format@), config.file_output),
{
    let level = lowercase(config.level.as_str());
    let format = lowercase(config.format.as_str());
    check_logging(level.as_str(), format.as_str(), &config.file_output)
}

pub open spec fn metrics_verdict(c: MetricsConfig) -> Result<(), ConfigError> {
    if c.enabled && c.port == 0 {
        Err(ConfigError::MetricsPortZero)
    } else if c.path@.len() == 0 {
        Err(ConfigError::EmptyMetricsPath)
    } else if !absolute(c.path@) {
        Err(ConfigError::MetricsPathNotAbsolute)
    } else {
        Ok(())
    }
}

/// Enabled metrics need a port; the path is absolute.
pub fn validate_metrics_config(config: &MetricsConfig) -> (r: Result<(), ConfigError>)
    ensures
        r == metrics_verdict(*config),
{
    if config.enabled && config.port == 0 {
        return Err(ConfigError::MetricsPortZero);
    }
    if chars_of(config.path.as_str()).len() == 0 {
        return Err(ConfigError::EmptyMetricsPath);
    }
    if !is_absolute(config.path.as_str()) {
        return Err(ConfigError::MetricsPathNotAbsolute);
    }
    Ok(())
}

pub open spec fn security_verdict(c: SecurityConfig) -> Result<(), ConfigError> {
    if c.cors.enabled && c.cors.allowed_origins@.len() == 0 {
        Err(ConfigError::CorsOriginsEmpty)
    } else if c.cors.enabled && c.cors.allowed_methods@.len() == 0 {
        Err(ConfigError::CorsMethodsEmpty)
    } else if c.rate_limit.enabled && c.rate_limit.requests_per_second == 0 {
        Err(ConfigError::RateLimitZero)
    } else if c.auth.enabled && c.auth.jwt_secret is None {
        Err(ConfigError::MissingJwtSecret)
    } else {
        Ok(())
    }
}

/// Enabled CORS lists origins and methods, an enabled rate limit admits at
/// least one request per second, enabled auth has a secret.
pub fn validate_security_config(config: &SecurityConfig) -> (r: Result<(), ConfigError>)
    ensures
        r == security_verdict(*config),
{
    if config.cors.enabled {
        if config.cors.allowed_origins.len() == 0 {
            return Err(ConfigError::CorsOriginsEmpty);
        }
        if config.cors.allowed_methods.len() == 0 {
            return Err(ConfigError::CorsMethodsEmpty);
        }
    }
    if config.rate_limit.enabled && config.rate_limit.requests_per_second == 0 {
        return Err(ConfigError::RateLimitZero);
    }
    if config.auth.enabled && config.auth.jwt_secret.is_none() {
        return Err(ConfigError::MissingJwtSecret);
    }
    Ok(())
}

pub open spec fn plugins_verdict(c: PluginsConfig) -> Result<(), ConfigError> {
    if c.enabled && c.directory is None {
        Err(ConfigError::MissingPluginDirectory)
    } else {
        Ok(())
    }
}

/// Enabled plugins need a directory.
pub fn validate_plugins_config(config: &PluginsConfig) -> (r: Result<(), ConfigError>)
    ensures
        r == plugins_verdict(*config),
{
    if config.enabled && config.directory.is_none() {
        return Err(ConfigError::MissingPluginDirectory);
    }
    Ok(())
}

/// The first problem with one backend of an endpoint of protocol `g`.
pub open spec fn backend_problem(g: GatewayProtocol, b: BackendConfig) -> Option<ConfigError> {
    if g == GatewayProtocol::Rest && b.protocol == BackendProtocol::WebSocket {
        Some(ConfigError::RestToWebSocket)
    } else if g == GatewayProtocol::WebSocket && b.protocol == BackendProtocol::Rest {
        Some(ConfigError::WebSocketToRest)
    } else if b.url@.len() == 0 {
        Some(ConfigError::EmptyBackendUrl)
    } else if b.circuit_breaker matches Some(cb) && cb.threshold == 0 {
        Some(ConfigError::BreakerThresholdZero)
    } else if b.circuit_breaker matches Some(cb) && cb.min_requests == 0 {
        Some(ConfigError::BreakerMinRequestsZero)
    } else if b.retry matches Some(rt) && rt.attempts == 0 {
        Some(ConfigError::RetryAttemptsZero)
    } else {
        None
    }
}

pub open spec fn backends_problem(g: GatewayProtocol, bs: Seq<BackendConfig>) -> Option<ConfigError>
    decreases bs.len(),
{
    if bs.len() == 0 {
        None
    } else {
        match backend_problem(g, bs[0]) {
            Some(e) => Some(e),
            None => backends_problem(g, bs.drop_first()),
        }
    }
}

pub open spec fn endpoint_problem(e: EndpointConfig) -> Option<ConfigError> {
    if e.path@.len() == 0 {
        Some(ConfigError::EmptyEndpointPath)
    } else if !absolute(e.path@) {
        Some(ConfigError::EndpointPathNotAbsolute)
    } else if e.backend@.len() == 0 {
        Some(ConfigError::NoBackends)
    } else if backends_problem(e.protocol, e.backend@) is Some {
        backends_problem(e.protocol, e.backend@)
    } else if e.auth_required && e.guards@.len() == 0 {
        Some(ConfigError::AuthWithoutGuards)
    } else {
        None
    }
}

pub open spec fn endpoints_problem(es: Seq<EndpointConfig>) -> Option<ConfigError>
    decreases es.len(),
{
    if es.len() == 0 {
        None
    } else {
        match endpoint_problem(es[0]) {
            Some(e) => Some(e),
            None => endpoints_problem(es.drop_first()),
        }
    }
}

pub open spec fn verdict_of(p: Option<ConfigError>) -> Result<(), ConfigError> {
    match p {
        Some(e) => Err(e),
        None => Ok(()),
    }
}

fn check_backend(g: GatewayProtocol, b: &BackendConfig) -> (r: Option<ConfigError>)
    ensures
        r == backend_problem(g, *b),
{
    match (g, b.protocol) {
        (GatewayProtocol::Rest, BackendProtocol::WebSocket) => {
            return Some(ConfigError::RestToWebSocket);
        },
        (GatewayProtocol::WebSocket, BackendProtocol::Rest) => {
            return Some(ConfigError::WebSocketToRest);
        },
        _ => {},
    }
    if chars_of(b.url.as_str()).len() == 0 {
        return Some(ConfigError::EmptyBackendUrl);
    }
    if let Some(cb) = b.circuit_breaker {
        if cb.threshold == 0 {
            return Some(ConfigError::BreakerThresholdZero);
        }
        if cb.min_requests == 0 {
            return Some(ConfigError::BreakerMinRequestsZero);
        }
    }
    if let Some(rt) = b.retry {
        if rt.attempts == 0 {
            return Some(ConfigError::RetryAttemptsZero);
        }
    }
    None
}

fn check_endpoint(e: &EndpointConfig) -> (r: Option<ConfigError>)
    ensures
        r == endpoint_problem(*e),
{
    if chars_of(e.path.as_str()).len() == 0 {
        return Some(ConfigError::EmptyEndpointPath);
    }
    if !is_absolute(e.path.as_str()) {
        return Some(ConfigError::EndpointPathNotAbsolute);
    }
    if e.backend.len() == 0 {
        return Some(ConfigError::NoBackends);
    }
    let mut i: usize = 0;
    assert(e.backend@.subrange(0, e.backend@.len() as int) =~= e.backend@);
    while i < e.backend.len()
        invariant
            i <= e.backend@.len(),
            e.path@.len() > 0,
            absolute(e.path@),
            e.backend@.len() > 0,
            backends_problem(e.protocol, e.backend@) == backends_problem(
                e.protocol,
                e.backend@.subrange(i as int, e.backend@.len() as int),
            ),
        decreases e.backend@.len() - i,
    {
        let ghost rest = e.backend@.subrange(i as int, e.backend@.len() as int);
        assert(rest[0] == e.backend@[i as int]);
        assert(rest.drop_first() =~= e.backend@.subrange(i + 1, e.backend@.len() as int));
        if let Some(p) = check_backend(e.protocol, &e.backend[i]) {
            return Some(p);
        }
        i = i + 1;
    }
    assert(e.backend@.subrange(i as int, e.backend@.len() as int).len() == 0);
    if e.auth_required && e.guards.len() == 0 {
        return Some(ConfigError::AuthWithoutGuards);
    }
    None
}

/// Every endpoint has an absolute path and at least one backend; every
/// backend is reachable from its endpoint's protocol, has a URL, and has
/// non-zero breaker and retry settings; an endpoint that requires auth names
/// guards. The first problem found is reported.
pub fn validate_endpoints_config(endpoints: &Vec<EndpointConfig>) -> (r: Result<(), ConfigError>)
    ensures
        r == verdict_of(endpoints_problem(endpoints@)),
{
    let mut i: usize = 0;
    assert(endpoints@.subrange(0, endpoints@.len() as int) =~= endpoints@);
    while i < endpoints.len()
        invariant
            i <= endpoints@.len(),
            endpoints_problem(endpoints@) == endpoints_problem(
                endpoints@.subrange(i as int, endpoints@.len() as int),
            ),
        decreases endpoints@.len() - i,
    {
        let ghost rest = endpoints@.subrange(i as int, endpoints@.len() as int);
        assert(rest[0] == endpoints@[i as int]);
        assert(rest.drop_first() =~= endpoints@.subrange(i + 1, endpoints@.len() as int));
        if let Some(p) = check_endpoint(&endpoints[i]) {
            return Err(p);
        }
        i = i + 1;
    }
    assert(endpoints@.subrange(i as int, endpoints@.len() as int).len() == 0);
    Ok(())
}

pub open spec fn config_verdict(c: Config) -> Result<(), ConfigError> {
    if server_verdict(c.server) is Err {
        server_verdict(c.server)
    } else if logging_verdict(
        lower_of(c.logging.level@),
        lower_of(c.logging.format@),
        c.logging.file_output,
    ) is Err {
        logging_verdict(lower_of(c.logging.level@), lower_of(c.logging.format@), c.logging.file_output)
    } else if metrics_verdict(c.metrics) is Err {
        metrics_verdict(c.metrics)
    } else if security_verdict(c.security) is Err {
        security_verdict(c.security)
    } else if plugins_verdict(c.plugins) is Err {
        plugins_verdict(c.plugins)
    } else {
        verdict_of(endpoints_problem(c.endpoints@))
    }
}

/// Runs every check, in order, and reports the first problem.
pub fn validate_config(config: &Config) -> (r: Result<(), ConfigError>)
    ensures
        r == config_verdict(*config),
{
    validate_server_config(&config.server)?;
    validate_logging_config(&config.logging)?;
    validate_metrics_config(&config.metrics)?;
    validate_security_config(&config.security)?;
    validate_plugins_config(&config.plugins)?;
    validate_endpoints_config(&config.endpoints)
}

} // verus!
