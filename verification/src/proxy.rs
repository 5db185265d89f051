//! What the proxy plane shares: its events, the registry of live proxies,
//! and the tunnels that carry the traffic.

pub mod event;
pub mod registry;
pub mod tunnel;
