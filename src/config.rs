//! Configuration values as the gateway reads them. Every duration is held as a
//! whole number of milliseconds.
use std::collections::HashMap;
use vstd::prelude::*;
use crate::error::ConfigError;
use crate::text::{lower_of, lowercase, owned, same_text};

verus! {

#[derive(Debug, Clone)]
pub struct ServerConfig {
    pub host: String,
    pub port: u16,
    pub ws_port: Option<u16>,
    pub workers: usize,
    /// Milliseconds.
    pub timeout: u64,
    pub max_request_size: usize,
}

#[derive(Debug, Clone)]
pub struct LoggingConfig {
    pub level: String,
    pub format: String,
    pub file_output: Option<String>,
    pub json_fields: Vec<String>,
}

#[derive(Debug, Clone)]
pub struct MetricsConfig {
    pub enabled: bool,
    pub port: u16,
    pub path: String,
    pub tags: HashMap<String, String>,
}

#[derive(Debug, Clone)]
pub struct SecurityConfig {
    pub cors: CorsConfig,
    pub rate_limit: RateLimitConfig,
    pub auth: AuthConfig,
    pub waf: WafConfig,
    pub rbac: RbacConfig,
}

#[derive(Debug, Clone)]
pub struct CorsConfig {
    pub enabled: bool,
    pub allowed_origins: Vec<String>,
    pub allowed_methods: Vec<String>,
    pub allowed_headers: Vec<String>,
    pub exposed_headers: Vec<String>,
    /// Milliseconds.
    pub max_age: u64,
}

#[derive(Debug, Clone, Copy, PartialEq, Eq, Structural)]
pub struct RateLimitConfig {
    pub enabled: bool,
    pub requests_per_second: u32,
    pub burst: u32,
}

#[derive(Debug, Clone)]
pub struct AuthConfig {
    pub enabled: bool,
    pub jwt_secret: Option<String>,
    pub jwt_issuer: Option<String>,
    pub jwt_audience: Option<String>,
    pub oauth: Option<OAuthConfig>,
    pub oidc: Option<OidcConfig>,
    pub api_key: Option<ApiKeyConfig>,
    pub mfa: Option<MfaConfig>,
}

#[derive(Debug, Clone)]
pub struct WafConfig {
    pub enabled: bool,
    pub rules_file: Option<String>,
    pub block_mode: bool,
    pub allowed_content_types: Vec<String>,
    pub max_request_size: usize,
    pub max_url_length: usize,
    pub max_header_count: usize,
    pub max_header_size: usize,
    pub blocked_countries: Vec<String>,
    pub blocked_ips: Vec<String>,
}

#[derive(Debug, Clone)]
pub struct RbacConfig {
    pub enabled: bool,
    pub rules_file: Option<String>,
    pub default_role: String,
    pub roles: HashMap<String, RoleConfig>,
    pub policies: Vec<PolicyConfig>,
}

#[derive(Debug, Clone)]
pub struct RoleConfig {
    pub name: String,
    pub permissions: Vec<String>,
    pub inherit_from: Vec<String>,
}

#[derive(Debug, Clone)]
pub struct PolicyConfig {
    pub name: String,
    pub effect: PolicyEffect,
    pub actions: Vec<String>,
    pub resources: Vec<String>,
    pub conditions: Option<HashMap<String, String>>,
}

#[derive(Debug, Clone, Copy, PartialEq, Eq, Structural)]
pub enum PolicyEffect {
    Allow,
    Deny,
}

#[derive(Debug, Clone)]
pub struct OAuthConfig {
    pub enabled: bool,
    pub providers: HashMap<String, OAuthProviderConfig>,
}

#[derive(Debug, Clone)]
pub struct OAuthProviderConfig {
    pub client_id: String,
    pub client_secret: String,
    pub authorize_url: String,
    pub token_url: String,
    pub scopes: Vec<String>,
}

#[derive(Debug, Clone)]
pub struct OidcConfig {
    pub enabled: bool,
    pub issuer_url: String,
    pub client_id: String,
    pub client_secret: String,
    pub scopes: Vec<String>,
}

#[derive(Debug, Clone)]
pub struct ApiKeyConfig {
    pub enabled: bool,
    pub header_name: String,
    pub in_query: bool,
    pub query_param: Option<String>,
}

#[derive(Debug, Clone)]
pub struct MfaConfig {
    pub enabled: bool,
    pub methods: Vec<MfaMethod>,
    pub enforcement: MfaEnforcement,
}

#[derive(Debug, Clone, Copy, PartialEq, Eq, Structural)]
pub enum MfaMethod {
    Totp,
    Sms,
    Email,
    WebAuthn,
}

#[derive(Debug, Clone, Copy, PartialEq, Eq, Structural)]
pub enum MfaEnforcement {
    Always,
    RiskBased,
    Optional,
}

#[derive(Debug, Clone)]
pub struct PluginsConfig {
    pub enabled: bool,
    pub directory: Option<String>,
    pub wasm_enabled: bool,
}

/// What a backend speaks.
#[derive(Debug, Clone, Copy, PartialEq, Eq, Structural)]
pub enum BackendProtocol {
    Rest,
    Grpc,
    WebSocket,
}

/// The protocol family of a gateway-facing endpoint.
#[derive(Debug, Clone, Copy, PartialEq, Eq, Hash, Structural)]
pub enum GatewayProtocol {
    Rest,
    WebSocket,
}

#[derive(Debug, Clone)]
pub struct EndpointConfig {
    pub path: String,
    pub method: String,
    pub backend: Vec<BackendConfig>,
    /// Milliseconds.
    pub timeout: Option<u64>,
    /// Milliseconds; carried along, not read by the gateway core.
    pub cache_ttl: Option<u64>,
    pub rate_limit: Option<RateLimitConfig>,
    pub auth_required: bool,
    pub protocol: GatewayProtocol,
    pub guards: Vec<String>,
}

#[derive(Debug, Clone)]
pub struct BackendConfig {
    pub url: String,
    pub method: Option<String>,
    /// Milliseconds.
    pub timeout: Option<u64>,
    pub circuit_breaker: Option<CircuitBreakerConfig>,
    pub retry: Option<RetryConfig>,
    pub protocol: BackendProtocol,
}

/// A breaker trips once, within one rolling `window`, at least `min_requests`
/// calls were made and at least `threshold` of them failed.
#[derive(Debug, Clone, Copy, PartialEq, Eq, Structural)]
pub struct CircuitBreakerConfig {
    pub threshold: u32,
    /// Milliseconds; also the cool-down of an open breaker.
    pub window: u64,
    pub min_requests: u32,
}

/// `attempts` full passes over the targets, `backoff` milliseconds apart.
#[derive(Debug, Clone, Copy, PartialEq, Eq, Structural)]
pub struct RetryConfig {
    pub attempts: u32,
    /// Milliseconds.
    pub backoff: u64,
}

#[derive(Debug, Clone)]
pub struct ClusterConfig {
    pub enabled: bool,
    pub discovery_method: Option<String>,
    pub discovery_endpoints: Vec<String>,
    pub node_name: Option<String>,
    pub node_role: Option<String>,
    /// Milliseconds.
    pub sync_interval: Option<u64>,
    pub leader_election: Option<LeaderElectionConfig>,
}

#[derive(Debug, Clone)]
pub struct LeaderElectionConfig {
    pub enabled: bool,
    /// Milliseconds.
    pub lease_duration: u64,
    /// Milliseconds.
    pub renew_deadline: u64,
    /// Milliseconds.
    pub retry_period: u64,
}

#[derive(Debug, Clone)]
pub struct TlsConfig {
    pub enabled: bool,
    pub cert_file: Option<String>,
    pub key_file: Option<String>,
    pub ca_file: Option<String>,
    pub verify_client: bool,
    pub min_version: Option<String>,
    pub cipher_suites: Vec<String>,
    pub alpn_protocols: Vec<String>,
}

#[derive(Debug, Clone)]
pub struct ObservabilityConfig {
    pub tracing: TracingConfig,
    pub metrics: MetricsConfig,
    pub logging: LoggingConfig,
    pub health: HealthConfig,
}

#[derive(Debug, Clone)]
pub struct TracingConfig {
    pub enabled: bool,
    pub provider: TracingProvider,
    /// The share of traces sampled, in thousandths.
    pub sampling_per_mille: u32,
    pub service_name: String,
    pub environment: String,
    pub tags: HashMap<String, String>,
    pub exporters: Vec<TracingExporter>,
}

#[derive(Debug, Clone, Copy, PartialEq, Eq, Structural)]
pub enum TracingProvider {
    OpenTelemetry,
    Jaeger,
    Zipkin,
    DataDog,
}

#[derive(Debug, Clone)]
pub struct TracingExporter {
    pub name: String,
    pub endpoint: String,
    pub protocol: String,
    pub headers: HashMap<String, String>,
    /// Milliseconds.
    pub timeout: u64,
    pub batch_size: usize,
    /// Milliseconds.
    pub flush_interval: u64,
}

#[derive(Debug, Clone)]
pub struct HealthConfig {
    pub enabled: bool,
    pub path: String,
    pub include_details: bool,
    pub checks: Vec<HealthCheck>,
}

#[derive(Debug, Clone)]
pub struct HealthCheck {
    pub name: String,
    pub enabled: bool,
    /// Milliseconds.
    pub timeout: u64,
    /// Milliseconds.
    pub interval: u64,
    /// Milliseconds.
    pub initial_delay: Option<u64>,
    pub required: bool,
}

#[derive(Debug, Clone)]
pub struct Config {
    pub server: ServerConfig,
    pub logging: LoggingConfig,
    pub metrics: MetricsConfig,
    pub security: SecurityConfig,
    pub plugins: PluginsConfig,
    pub endpoints: Vec<EndpointConfig>,
    pub cluster: ClusterConfig,
    pub tls: TlsConfig,
    pub observability: ObservabilityConfig,
}

/// Default server timeout: thirty seconds.
pub const DEFAULT_TIMEOUT_MS: u64 = 30_000;

/// Default request size limit: ten mebibytes.
pub const DEFAULT_MAX_REQUEST_SIZE: usize = 10_485_760;

pub fn default_timeout() -> (r: u64)
    ensures
        r == DEFAULT_TIMEOUT_MS,
{
    DEFAULT_TIMEOUT_MS
}

pub fn default_max_request_size() -> (r: usize)
    ensures
        r == 1024 * 1024 * 10,
{
    DEFAULT_MAX_REQUEST_SIZE
}

pub fn default_gateway_protocol() -> (r: GatewayProtocol)
    ensures
        r == GatewayProtocol::Rest,
{
    GatewayProtocol::Rest
}

pub fn default_backend_protocol() -> (r: BackendProtocol)
    ensures
        r == BackendProtocol::Rest,
{
    BackendProtocol::Rest
}

/// Whether an endpoint of protocol `g` may proxy to a backend of protocol `b`:
/// a REST endpoint never targets a WebSocket backend, nor the other way round.
pub open spec fn compatible(g: GatewayProtocol, b: BackendProtocol) -> bool {
    !(g == GatewayProtocol::Rest && b == BackendProtocol::WebSocket)
        && !(g == GatewayProtocol::WebSocket && b == BackendProtocol::Rest)
}

pub fn is_compatible(g: GatewayProtocol, b: BackendProtocol) -> (r: bool)
    ensures
        r == compatible(g, b),
{
    match (g, b) {
        (GatewayProtocol::Rest, BackendProtocol::WebSocket) => false,
        (GatewayProtocol::WebSocket, BackendProtocol::Rest) => false,
        _ => true,
    }
}

/// The protocol family a lowercase name stands for.
pub open spec fn protocol_named(s: Seq<char>) -> Option<GatewayProtocol> {
    if s == seq!['r', 'e', 's', 't'] {
        Some(GatewayProtocol::Rest)
    } else if s == seq!['w', 'e', 'b', 's', 'o', 'c', 'k', 'e', 't'] {
        Some(GatewayProtocol::WebSocket)
    } else {
        None
    }
}

/// Reads an already lowercased protocol name.
pub fn protocol_from_lowercase(s: &str) -> (r: Option<GatewayProtocol>)
    ensures
        r == protocol_named(s@),
{
    proof {
        reveal_strlit("rest");
        reveal_strlit("websocket");
        assert("rest"@ =~= seq!['r', 'e', 's', 't']);
        assert("websocket"@ =~= seq!['w', 'e', 'b', 's', 'o', 'c', 'k', 'e', 't']);
    }
    if same_text(s, "rest") {
        Some(GatewayProtocol::Rest)
    } else if same_text(s, "websocket") {
        Some(GatewayProtocol::WebSocket)
    } else {
        None
    }
}

impl GatewayProtocol {
    /// Reads a protocol name in any letter case.
    pub fn parse(s: &str) -> (r: Result<GatewayProtocol, ConfigError>)
        ensures
            r == match protocol_named(lower_of(s@)) {
                Some(g) => Ok(g),
                None => Err(ConfigError::InvalidProtocol),
            },
    {
        let lower = lowercase(s);
        match protocol_from_lowercase(lower.as_str()) {
            Some(g) => Ok(g),
            None => Err(ConfigError::InvalidProtocol),
        }
    }
}

impl std::str::FromStr for GatewayProtocol {
    type Err = ConfigError;

    fn from_str(s: &str) -> Result<GatewayProtocol, ConfigError> {
        GatewayProtocol::parse(s)
    }
}

/// Relies on `num_cpus::get`: the logical CPUs available, which its
/// documentation says is always at least one.
#[verifier::external_body]
fn cpu_count() -> (r: usize)
    ensures
        r >= 1,
{
    num_cpus::get()
}

/// `a` holds the same backend settings as `b`.
pub open spec fn same_backend(a: BackendConfig, b: BackendConfig) -> bool {
    &&& a.url@ == b.url@
    &&& a.method == b.method
    &&& a.timeout == b.timeout
    &&& a.circuit_breaker == b.circuit_breaker
    &&& a.retry == b.retry
    &&& a.protocol == b.protocol
}

/// `a` holds the same endpoint settings as `b`.
pub open spec fn same_endpoint(a: EndpointConfig, b: EndpointConfig) -> bool {
    &&& a.path@ == b.path@
    &&& a.method@ == b.method@
    &&& a.backend@.len() == b.backend@.len()
    &&& forall|i: int| 0 <= i < a.backend@.len() ==> same_backend(#[trigger] a.backend@[i], b.backend@[i])
    &&& a.timeout == b.timeout
    &&& a.cache_ttl == b.cache_ttl
    &&& a.rate_limit == b.rate_limit
    &&& a.auth_required == b.auth_required
    &&& a.protocol == b.protocol
    &&& a.guards@ == b.guards@
}

impl BackendConfig {
    /// A copy of these settings.
    pub fn duplicate(&self) -> (r: BackendConfig)
        ensures
            same_backend(r, *self),
    {
        BackendConfig {
            url: self.url.clone(),
            method: self.method.clone(),
            timeout: self.timeout,
            circuit_breaker: self.circuit_breaker,
            retry: self.retry,
            protocol: self.protocol,
        }
    }
}

/// Copies of `bs`, in order.
pub fn duplicate_backends(bs: &Vec<BackendConfig>) -> (r: Vec<BackendConfig>)
    ensures
        r@.len() == bs@.len(),
        forall|i: int| 0 <= i < bs@.len() ==> same_backend(#[trigger] r@[i], bs@[i]),
{
    let mut out: Vec<BackendConfig> = Vec::new();
    let mut i: usize = 0;
    while i < bs.len()
        invariant
            i <= bs@.len(),
            out@.len() == i,
            forall|j: int| 0 <= j < i ==> same_backend(#[trigger] out@[j], bs@[j]),
        decreases bs@.len() - i,
    {
        out.push(bs[i].duplicate());
        i = i + 1;
    }
    out
}

impl EndpointConfig {
    /// A copy of these settings.
    pub fn duplicate(&self) -> (r: EndpointConfig)
        ensures
            same_endpoint(r, *self),
    {
        let guards = self.guards.clone();
        assert(guards@ =~= self.guards@);
        EndpointConfig {
            path: self.path.clone(),
            method: self.method.clone(),
            backend: duplicate_backends(&self.backend),
            timeout: self.timeout,
            cache_ttl: self.cache_ttl,
            rate_limit: self.rate_limit,
            auth_required: self.auth_required,
            protocol: self.protocol,
            guards,
        }
    }
}

impl Config {
    /// The settings used when no configuration file is given: a server on
    /// 127.0.0.1:3000 with one worker per CPU, JSON logging at info level,
    /// metrics on port 9090, every optional feature off and no endpoints.
    pub fn default() -> (r: Config)
        ensures
            r.server.host@ == "127.0.0.1"@,
            r.server.port == 3000,
            r.server.ws_port is None,
            r.server.workers >= 1,
            r.server.timeout == DEFAULT_TIMEOUT_MS,
            r.server.max_request_size == DEFAULT_MAX_REQUEST_SIZE,
            r.logging.level@ == "info"@,
            r.logging.format@ == "json"@,
            r.logging.file_output is None,
            r.metrics.enabled,
            r.metrics.port == 9090,
            r.metrics.path@ == "/metrics"@,
            !r.security.cors.enabled,
            !r.security.rate_limit.enabled,
            !r.security.auth.enabled,
            r.security.auth.jwt_secret is None,
            !r.security.waf.enabled,
            !r.security.rbac.enabled,
            !r.plugins.enabled,
            r.endpoints@.len() == 0,
            !r.cluster.enabled,
            !r.tls.enabled,
            !r.observability.tracing.enabled,
            r.observability.tracing.sampling_per_mille == 500,
            !r.observability.health.enabled,
    {
        Config {
            server: ServerConfig {
                host: owned("127.0.0.1"),
                port: 3000,
                ws_port: None,
                workers: cpu_count(),
                timeout: default_timeout(),
                max_request_size: default_max_request_size(),
            },
            logging: LoggingConfig {
                level: owned("info"),
                format: owned("json"),
                file_output: None,
                json_fields: Vec::new(),
            },
            metrics: MetricsConfig {
                enabled: true,
                port: 9090,
                path: owned("/metrics"),
                tags: HashMap::new(),
            },
            security: SecurityConfig {
                cors: CorsConfig {
                    enabled: false,
                    allowed_origins: Vec::new(),
                    allowed_methods: Vec::new(),
                    allowed_headers: Vec::new(),
                    exposed_headers: Vec::new(),
                    max_age: 0,
                },
                rate_limit: RateLimitConfig { enabled: false, requests_per_second: 0, burst: 0 },
                auth: AuthConfig {
                    enabled: false,
                    jwt_secret: None,
                    jwt_issuer: None,
                    jwt_audience: None,
                    oauth: None,
                    oidc: None,
                    api_key: None,
                    mfa: None,
                },
                waf: WafConfig {
                    enabled: false,
                    rules_file: None,
                    block_mode: false,
                    allowed_content_types: Vec::new(),
                    max_request_size: 0,
                    max_url_length: 0,
                    max_header_count: 0,
                    max_header_size: 0,
                    blocked_countries: Vec::new(),
                    blocked_ips: Vec::new(),
                },
                rbac: RbacConfig {
                    enabled: false,
                    rules_file: None,
                    default_role: String::new(),
                    roles: HashMap::new(),
                    policies: Vec::new(),
                },
            },
            plugins: PluginsConfig { enabled: false, directory: None, wasm_enabled: false },
            endpoints: Vec::new(),
            cluster: ClusterConfig {
                enabled: false,
                discovery_method: None,
                discovery_endpoints: Vec::new(),
                node_name: None,
                node_role: None,
                sync_interval: None,
                leader_election: None,
            },
            tls: TlsConfig {
                enabled: false,
                cert_file: None,
                key_file: None,
                ca_file: None,
                verify_client: false,
                min_version: Some(owned("TLS1.3")),
                cipher_suites: Vec::new(),
                alpn_protocols: Vec::new(),
            },
            observability: ObservabilityConfig {
                tracing: TracingConfig {
                    enabled: false,
                    provider: TracingProvider::OpenTelemetry,
                    sampling_per_mille: 500,
                    service_name: owned("gateway"),
                    environment: owned("development"),
                    tags: HashMap::new(),
                    exporters: Vec::new(),
                },
                metrics: MetricsConfig {
                    enabled: true,
                    port: 9090,
                    path: owned("/metrics"),
                    tags: HashMap::new(),
                },
                logging: LoggingConfig {
                    level: owned("info"),
                    format: owned("json"),
                    file_output: None,
                    json_fields: Vec::new(),
                },
                health: HealthConfig {
                    enabled: false,
                    path: owned("/health"),
                    include_details: false,
                    checks: Vec::new(),
                },
            },
        }
    }
}

} // verus!
