//! WebSocket connections, their topics, and what is decided about their messages.
pub mod handler;
pub mod history_laws;
pub mod laws;
pub mod listener;
pub mod protocol_laws;
pub mod routing;
pub mod routing_laws;
pub mod service;
pub mod service_laws;
pub mod types;
pub mod upgrade;
