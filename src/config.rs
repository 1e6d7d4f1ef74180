//! Application configuration values and their defaults.
use vstd::prelude::*;

verus! {

/// Application configuration.
#[derive(Debug, Clone)]
pub struct AppConfig {
    pub server: ServerConfig,
    pub providers: ProvidersConfig,
    pub security: SecurityConfig,
    pub logging: LoggingConfig,
    pub rate_limit: RateLimitConfig,
}

/// Server configuration.
#[derive(Debug, Clone)]
pub struct ServerConfig {
    /// Server host (default: 0.0.0.0)
    pub host: String,
    /// Server port (default: 3000)
    pub port: u16,
    /// Request timeout in seconds (default: 30)
    pub timeout_seconds: u64,
}

/// SMS providers configuration.
#[derive(Debug, Clone)]
pub struct ProvidersConfig {
    pub plivo: Option<PlivoConfig>,
    pub twilio: Option<TwilioConfig>,
    pub aws_sns: Option<AwsSnsConfig>,
}

/// Plivo provider configuration.
#[derive(Debug, Clone)]
pub struct PlivoConfig {
    pub auth_id: String,
    pub auth_token: String,
    pub verify_signatures: bool,
}

/// Twilio provider configuration.
#[derive(Debug, Clone)]
pub struct TwilioConfig {
    pub account_sid: String,
    pub auth_token: String,
    pub verify_signatures: bool,
}

/// AWS SNS provider configuration.
#[derive(Debug, Clone)]
pub struct AwsSnsConfig {
    pub access_key_id: String,
    pub secret_access_key: String,
    pub region: String,
}

/// Security configuration.
#[derive(Debug, Clone)]
pub struct SecurityConfig {
    /// Enable signature verification (default: true)
    pub verify_signatures: bool,
    /// Maximum request body size in bytes (default: 1 MiB)
    pub max_body_size: usize,
    /// Request timeout in seconds (default: 30)
    pub request_timeout: u64,
}

/// Logging configuration.
#[derive(Debug, Clone)]
pub struct LoggingConfig {
    /// Log level (default: info)
    pub level: String,
    /// Log format: json or pretty (default: json)
    pub format: String,
}

/// Per-client rate limiting configuration.
#[derive(Debug, Clone)]
pub struct RateLimitConfig {
    /// Enable rate limiting (default: true)
    pub enabled: bool,
    /// Requests per minute (default: 100)
    pub requests_per_minute: u32,
    /// Burst size (default: 10)
    pub burst_size: u32,
}

impl Default for ServerConfig {
    fn default() -> (r: Self)
        ensures
            r.host@ == "0.0.0.0"@,
            r.port == 3000,
            r.timeout_seconds == 30,
    {
        ServerConfig { host: String::from_str("0.0.0.0"), port: 3000, timeout_seconds: 30 }
    }
}

impl Default for SecurityConfig {
    fn default() -> (r: Self)
        ensures
            r.verify_signatures,
            r.max_body_size == 1024 * 1024,
            r.request_timeout == 30,
    {
        SecurityConfig { verify_signatures: true, max_body_size: 1024 * 1024, request_timeout: 30 }
    }
}

impl Default for LoggingConfig {
    fn default() -> (r: Self)
        ensures
            r.level@ == "info"@,
            r.format@ == "json"@,
    {
        LoggingConfig { level: String::from_str("info"), format: String::from_str("json") }
    }
}

impl Default for RateLimitConfig {
    fn default() -> (r: Self)
        ensures
            r.enabled,
            r.requests_per_minute == 100,
            r.burst_size == 10,
    {
        RateLimitConfig { enabled: true, requests_per_minute: 100, burst_size: 10 }
    }
}

impl Default for AppConfig {
    fn default() -> (r: Self)
        ensures
            r.server.host@ == "0.0.0.0"@,
            r.server.port == 3000,
            r.server.timeout_seconds == 30,
            r.providers.plivo is None,
            r.providers.twilio is None,
            r.providers.aws_sns is None,
            r.security.verify_signatures,
            r.security.max_body_size == 1024 * 1024,
            r.security.request_timeout == 30,
            r.logging.level@ == "info"@,
            r.logging.format@ == "json"@,
            r.rate_limit.enabled,
            r.rate_limit.requests_per_minute == 100,
            r.rate_limit.burst_size == 10,
    {
        AppConfig {
            server: ServerConfig::default(),
            providers: ProvidersConfig { plivo: None, twilio: None, aws_sns: None },
            security: SecurityConfig::default(),
            logging: LoggingConfig::default(),
            rate_limit: RateLimitConfig::default(),
        }
    }
}

} // verus!
