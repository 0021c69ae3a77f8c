//! An API gateway core: path routing, an onion-shaped middleware pipeline and a
//! resilient backend dispatcher (round robin, retry passes, circuit breaking).
//! Network and file I/O live outside this library; its functions take and return
//! plain values.
pub mod breaker;
pub mod client;
pub mod config;
pub mod context;
pub mod error;
pub mod gateway;
pub mod message;
pub mod metrics;
pub mod middleware;
pub mod router;
pub mod template;
pub mod text;
pub mod validator;
