//! The gateway's error taxonomy.
use vstd::prelude::*;

verus! {

/// Why a request found no route. Never retried.
#[derive(Debug, Clone, Copy, PartialEq, Eq, Structural)]
pub enum RoutingError {
    NotFound,
    /// Reserved for method-aware matching; path matching never produces it.
    MethodNotAllowed,
    ProtocolMismatch,
}

/// Why a route could not be registered. Fatal at startup.
#[derive(Debug, Clone, Copy, PartialEq, Eq, Structural)]
pub enum RegistrationError {
    /// The path template is malformed.
    InvalidTemplate,
    /// An endpoint's protocol cannot proxy to one of its backends' protocol.
    IncompatibleBackend,
    /// A dispatcher needs at least one backend.
    NoBackends,
}

/// A middleware stage refused the request.
#[derive(Debug, Clone, Copy, PartialEq, Eq, Structural)]
pub enum MiddlewareError {
    Unauthorized,
    RateLimited,
}

/// What went wrong with one backend attempt.
#[derive(Debug, Clone, Copy, PartialEq, Eq, Structural)]
pub enum Failure {
    NetworkError,
    Timeout,
    NonSuccessStatus(u16),
    /// Every target was skipped because its breaker was open.
    CircuitOpen,
}

/// The only dispatch error a caller sees: every pass over every target failed.
#[derive(Debug, Clone, Copy, PartialEq, Eq, Structural)]
pub enum DispatchError {
    AllBackendsExhausted(Failure),
}

/// Why a request was answered without a backend response.
#[derive(Debug, Clone, Copy, PartialEq, Eq, Structural)]
pub enum GatewayError {
    Routing(RoutingError),
    Middleware(MiddlewareError),
    Dispatch(DispatchError),
}

/// The HTTP status a gateway error is answered with: 404 for an unknown
/// route or protocol, 405 for a method mismatch, 401 for a refused
/// credential, 429 for a rate-limited request, 502 when every backend failed.
pub open spec fn status_for(e: GatewayError) -> u16 {
    match e {
        GatewayError::Routing(RoutingError::NotFound) => 404,
        GatewayError::Routing(RoutingError::ProtocolMismatch) => 404,
        GatewayError::Routing(RoutingError::MethodNotAllowed) => 405,
        GatewayError::Middleware(MiddlewareError::Unauthorized) => 401,
        GatewayError::Middleware(MiddlewareError::RateLimited) => 429,
        GatewayError::Dispatch(_) => 502,
    }
}

pub fn status_code(e: GatewayError) -> (r: u16)
    ensures
        r == status_for(e),
{
    match e {
        GatewayError::Routing(RoutingError::NotFound) => 404,
        GatewayError::Routing(RoutingError::ProtocolMismatch) => 404,
        GatewayError::Routing(RoutingError::MethodNotAllowed) => 405,
        GatewayError::Middleware(MiddlewareError::Unauthorized) => 401,
        GatewayError::Middleware(MiddlewareError::RateLimited) => 429,
        GatewayError::Dispatch(_) => 502,
    }
}

/// A configuration value that the gateway refuses to start with.
#[derive(Debug, Clone, Copy, PartialEq, Eq, Structural)]
pub enum ConfigError {
    ServerPortZero,
    WorkersZero,
    TimeoutTooShort,
    MaxRequestSizeZero,
    InvalidLogLevel,
    InvalidLogFormat,
    EmptyLogFilePath,
    MetricsPortZero,
    EmptyMetricsPath,
    MetricsPathNotAbsolute,
    CorsOriginsEmpty,
    CorsMethodsEmpty,
    RateLimitZero,
    MissingJwtSecret,
    MissingPluginDirectory,
    EmptyEndpointPath,
    EndpointPathNotAbsolute,
    NoBackends,
    RestToWebSocket,
    WebSocketToRest,
    EmptyBackendUrl,
    BreakerThresholdZero,
    BreakerMinRequestsZero,
    RetryAttemptsZero,
    AuthWithoutGuards,
    InvalidProtocol,
}

} // verus!
