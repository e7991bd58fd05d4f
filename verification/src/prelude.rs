//! The most common types, for a single `use`.
pub use crate::auth::WsAuth;
pub use crate::coalescing::CoalescingService;
pub use crate::ws::handler::ConnectionContext;
pub use crate::ws::service::WebsocketService;
pub use crate::ws::upgrade::upgrade_handler;
