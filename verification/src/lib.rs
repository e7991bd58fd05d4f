//! The verified core of a toolkit for real-time applications with Axum, WebSockets and
//! Redis Pub/Sub.
//!
//! - [`ws`]: the connections of a server instance and their topics, the commands that keep
//!   the Redis listener subscribed to the topics in use, and what is decided about each
//!   message, frame and upgrade.
//! - [`coalescing`]: one running operation per key, however many ask for it.
//! - [`auth`]: the token of a request, and what becomes of it.
//! - [`foreign`]: the calls into other crates, which are taken on trust.
pub mod auth;
pub mod coalescing;
pub mod coalescing_laws;
pub mod foreign;
pub mod prelude;
pub mod text;
pub mod ws;
