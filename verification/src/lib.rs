//! Verified core of a resilient network-communication toolkit.
pub mod base64;
pub mod bindings;
pub mod circuit_breaker;
pub mod dns;
pub mod error;
pub mod ffi;
pub mod http;
pub mod multipart;
pub mod network;
pub mod observability;
pub mod pinning;
pub mod proxy_probe;
pub mod registry;
pub mod resilience;
pub mod retry_after;
pub mod scheduler;
pub mod socks5;
pub mod sse;
pub mod strmap;
pub mod text;
pub mod transport;
