//! The service proxies of the gateway and their manager.

pub mod auth;
pub mod manager;
pub mod proxy;
