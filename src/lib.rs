//! Normalization of inbound SMS webhooks from several vendors, and
//! token-bucket rate limiting keyed by arbitrary strings.

pub mod config;
pub mod encode;
pub mod keyed;
pub mod keys;
pub mod model;
pub mod processor;
pub mod rate_limit;
pub mod rate_limiter;
pub mod registry;
pub mod text;
pub mod vendors;

pub use keys::{DefaultKeyGenerator, KeyGenerator};
pub use model::{
    HttpStatus, InboundMessage, SendRequest, SmsError, Timestamp, WebhookError, WebhookResponse,
    WebhookResult,
};
pub use processor::{HeaderConverter, ResponseConverter, WebhookProcessor};
pub use rate_limiter::{ProviderRateLimit, RateLimitConfig, RateLimitResult, RateLimiter};
pub use registry::{Headers, InboundRegistry, InboundWebhook};
